//! The composer: the text being typed, its cursor, and the menus that open
//! while a command, a skill or a file mention is typed.

use vstd::prelude::*;
use crate::text;
use crate::text::{
    chars_of, concat2, concat3, same, space, starts_with, sub_string, to_ascii_lower,
    trim,
};
use crate::tui::app::slash;
use crate::tui::app::slash::{any_space, get_slash_command_suggestions, slash_names};

verus! {

// ---------------------------------------------------------------------------
// Skill suggestions
// ---------------------------------------------------------------------------

/// The names and descriptions of pairs.
pub open spec fn pair_models(v: Seq<(String, String)>) -> Seq<(Seq<char>, Seq<char>)> {
    Seq::new(v.len(), |i: int| (v[i].0@, v[i].1@))
}

proof fn lemma_pairs_push(v: Seq<(String, String)>, p: (String, String))
    ensures
        pair_models(v.push(p)) == pair_models(v).push((p.0@, p.1@)),
{
    assert(pair_models(v.push(p)) =~= pair_models(v).push((p.0@, p.1@)));
}

/// The token that a lone `/token` asks skills for.
pub open spec fn skill_query(typed: Seq<char>) -> Option<Seq<char>> {
    if typed.len() == 0 || typed[0] != '/' || slash::has_space(text::trimmed(typed)) {
        None
    } else {
        Some(text::ascii_lowered(typed.skip(1)))
    }
}

/// A lone `/token` without white space may be the name of a skill.
pub fn skill_suggestion_query(typed: &str) -> (r: Option<String>)
    ensures
        text::opt_text(r) == skill_query(typed@),
{
    let x = chars_of(typed);
    let trimmed = trim(typed);
    if x.len() == 0 || x[0] != '/' || any_space(trimmed.as_str()) {
        return None;
    }
    let token = sub_string(&x, 1, x.len());
    assert(token@ =~= typed@.skip(1));
    Some(to_ascii_lower(token.as_str()))
}

/// Where the last segment of a qualified name begins.
pub open spec fn segment_start(name: Seq<char>, n: nat) -> int
    decreases n,
{
    if n == 0 {
        0
    } else if name[n - 1] == ':' {
        n as int
    } else {
        segment_start(name, (n - 1) as nat)
    }
}

/// The last segment of a qualified name, behind its last colon.
pub open spec fn last_segment(name: Seq<char>) -> Seq<char> {
    name.skip(segment_start(name, name.len()))
}

fn segment_of(name: &str) -> (r: String)
    ensures
        r@ == last_segment(name@),
{
    let x = chars_of(name);
    let mut n: usize = x.len();
    while n > 0 && x[n - 1] != ':'
        invariant
            n <= x.len(),
            x@ == name@,
            segment_start(x@, x@.len()) == segment_start(x@, n as nat),
        decreases n,
    {
        n = n - 1;
    }
    let r = sub_string(&x, n, x.len());
    assert(r@ =~= x@.skip(n as int));
    r
}

/// Whether a skill is shadowed by a command of the same name.
pub open spec fn is_shadowed(name: Seq<char>, builtins: Seq<Seq<char>>) -> bool {
    exists|i: int|
        0 <= i < builtins.len() && text::ascii_lowered(#[trigger] builtins[i])
            == text::ascii_lowered(name)
}

fn shadowed(name: &str, builtins: &Vec<String>) -> (r: bool)
    ensures
        r == is_shadowed(name@, text::texts(builtins@)),
{
    let lower = to_ascii_lower(name);
    let ghost all = text::texts(builtins@);
    let mut i: usize = 0;
    while i < builtins.len()
        invariant
            i <= builtins.len(),
            all == text::texts(builtins@),
            lower@ == text::ascii_lowered(name@),
            forall|k: int| 0 <= k < i ==> text::ascii_lowered(#[trigger] all[k]) != lower@,
        decreases builtins.len() - i,
    {
        let b = to_ascii_lower(builtins[i].as_str());
        if same(b.as_str(), lower.as_str()) {
            assert(text::ascii_lowered(all[i as int]) == lower@);
            return true;
        }
        i = i + 1;
    }
    false
}

/// Whether the whole name begins with the query.
pub open spec fn matches_name(
    entry: (Seq<char>, Seq<char>),
    query: Seq<char>,
    builtins: Seq<Seq<char>>,
) -> bool {
    !is_shadowed(entry.0, builtins) && slash::begins_with(text::ascii_lowered(entry.0), query)
}

/// Whether only the last segment of the name begins with the query.
pub open spec fn matches_segment(
    entry: (Seq<char>, Seq<char>),
    query: Seq<char>,
    builtins: Seq<Seq<char>>,
) -> bool {
    &&& !is_shadowed(entry.0, builtins)
    &&& !slash::begins_with(text::ascii_lowered(entry.0), query)
    &&& slash::begins_with(text::ascii_lowered(last_segment(entry.0)), query)
}

/// The entries that match by name, or those that match by segment, in the
/// catalog's order.
pub open spec fn matching(
    catalog: Seq<(Seq<char>, Seq<char>)>,
    query: Seq<char>,
    builtins: Seq<Seq<char>>,
    by_name: bool,
) -> Seq<(Seq<char>, Seq<char>)>
    decreases catalog.len(),
{
    if catalog.len() == 0 {
        Seq::empty()
    } else {
        let before = matching(catalog.drop_last(), query, builtins, by_name);
        let hit = if by_name {
            matches_name(catalog.last(), query, builtins)
        } else {
            matches_segment(catalog.last(), query, builtins)
        };
        if hit {
            before.push(catalog.last())
        } else {
            before
        }
    }
}

/// How many skills the menu shows at most.
pub const SKILL_MENU_LIMIT: usize = 8;

/// The menu of a query: matches by name first, then matches by segment, no
/// more than fit.
pub open spec fn skill_menu(
    catalog: Seq<(Seq<char>, Seq<char>)>,
    query: Seq<char>,
    builtins: Seq<Seq<char>>,
) -> Seq<(Seq<char>, Seq<char>)> {
    let lower = text::ascii_lowered(query);
    let all = matching(catalog, lower, builtins, true) + matching(catalog, lower, builtins, false);
    if all.len() > SKILL_MENU_LIMIT {
        all.take(SKILL_MENU_LIMIT as int)
    } else {
        all
    }
}

/// The skills that a query offers: whole names first, then last segments of
/// qualified names, each in the catalog's order. Names of commands are left
/// out, so completing never lands on a shadowed name.
pub fn filter_skill_catalog(
    catalog: &Vec<(String, String)>,
    query: &str,
    builtins: &Vec<String>,
) -> (r: Vec<(String, String)>)
    ensures
        pair_models(r@) == skill_menu(pair_models(catalog@), query@, text::texts(builtins@)),
{
    let lower = to_ascii_lower(query);
    let ghost all = pair_models(catalog@);
    let ghost names = text::texts(builtins@);
    let mut exact: Vec<(String, String)> = Vec::new();
    let mut qualified: Vec<(String, String)> = Vec::new();
    let mut i: usize = 0;
    assert(pair_models(exact@) =~= matching(all.take(0), lower@, names, true));
    assert(pair_models(qualified@) =~= matching(all.take(0), lower@, names, false));
    while i < catalog.len()
        invariant
            i <= catalog.len(),
            all == pair_models(catalog@),
            names == text::texts(builtins@),
            pair_models(exact@) == matching(all.take(i as int), lower@, names, true),
            pair_models(qualified@) == matching(all.take(i as int), lower@, names, false),
        decreases catalog.len() - i,
    {
        assert(all.take(i + 1).drop_last() =~= all.take(i as int));
        assert(all.take(i + 1).last() == all[i as int]);
        let name = catalog[i].0.clone();
        let description = catalog[i].1.clone();
        let entry = (name.clone(), description);
        if !shadowed(name.as_str(), builtins) {
            let whole = to_ascii_lower(name.as_str());
            let segment = segment_of(name.as_str());
            let last = to_ascii_lower(segment.as_str());
            if starts_with(whole.as_str(), lower.as_str()) {
                proof {
                    lemma_pairs_push(exact@, entry);
                }
                exact.push(entry);
            } else if starts_with(last.as_str(), lower.as_str()) {
                proof {
                    lemma_pairs_push(qualified@, entry);
                }
                qualified.push(entry);
            }
        }
        i = i + 1;
    }
    assert(all.take(i as int) =~= all);
    let ghost first = pair_models(exact@);
    let ghost second = pair_models(qualified@);
    exact.append(&mut qualified);
    assert(pair_models(exact@) =~= first + second);
    if exact.len() > SKILL_MENU_LIMIT {
        exact.truncate(SKILL_MENU_LIMIT);
        assert(pair_models(exact@) =~= (first + second).take(SKILL_MENU_LIMIT as int));
    }
    exact
}

// ---------------------------------------------------------------------------
// File mentions
// ---------------------------------------------------------------------------

/// A file mention under the cursor: where its path begins, where its token
/// ends, and what of the path stands before the cursor.
#[derive(Debug, PartialEq)]
pub struct Mention {
    pub path_start: usize,
    pub path_end: usize,
    pub path_text: String,
}

/// Where the token around position `i` begins.
pub open spec fn token_start(s: Seq<char>, i: int) -> int
    decreases i,
{
    if i <= 0 || text::is_space(s[i - 1]) {
        i
    } else {
        token_start(s, i - 1)
    }
}

/// Where the token around position `i` ends.
pub open spec fn token_end(s: Seq<char>, i: int) -> int
    decreases s.len() - i,
{
    if i >= s.len() || text::is_space(s[i]) {
        i
    } else {
        token_end(s, i + 1)
    }
}

/// The mention under the cursor: a token that begins with an at sign, with the
/// cursor behind it. Its start, its end and the path before the cursor.
pub open spec fn mention_at(s: Seq<char>, cursor: int) -> Option<(int, int, Seq<char>)> {
    if cursor < 0 || cursor > s.len() {
        None
    } else {
        let start = token_start(s, cursor);
        if 0 <= start < cursor && s[start] == '@' {
            Some((start + 1, token_end(s, cursor), s.subrange(start + 1, cursor)))
        } else {
            None
        }
    }
}

/// The file mention under the cursor.
pub fn get_active_chat_file_mention(typed: &str, cursor: usize) -> (r: Option<Mention>)
    ensures
        match r {
            Some(m) => {
                &&& mention_at(typed@, cursor as int) == Some(
                    (m.path_start as int, m.path_end as int, m.path_text@),
                )
                &&& m.path_start <= m.path_end <= typed@.len()
            },
            None => mention_at(typed@, cursor as int) is None,
        },
{
    let x = chars_of(typed);
    if cursor > x.len() {
        return None;
    }
    let mut start: usize = cursor;
    while start > 0 && !space(x[start - 1])
        invariant
            start <= cursor <= x.len(),
            token_start(x@, cursor as int) == token_start(x@, start as int),
        decreases start,
    {
        start = start - 1;
    }
    if start >= cursor || x[start] != '@' {
        return None;
    }
    let mut end: usize = cursor;
    while end < x.len() && !space(x[end])
        invariant
            cursor <= end <= x.len(),
            token_end(x@, cursor as int) == token_end(x@, end as int),
        decreases x.len() - end,
    {
        end = end + 1;
    }
    let path_text = sub_string(&x, start + 1, cursor);
    Some(Mention { path_start: start + 1, path_end: end, path_text })
}

/// The text with the mention's path replaced.
pub fn replace_active_chat_file_mention(typed: &str, mention: &Mention, path: &str) -> (r: String)
    requires
        mention.path_start <= mention.path_end <= typed@.len(),
    ensures
        r@ == typed@.take(mention.path_start as int) + path@ + typed@.skip(
            mention.path_end as int,
        ),
{
    let x = chars_of(typed);
    let head = sub_string(&x, 0, mention.path_start);
    let tail = sub_string(&x, mention.path_end, x.len());
    assert(head@ =~= typed@.take(mention.path_start as int));
    assert(tail@ =~= typed@.skip(mention.path_end as int));
    concat3(head.as_str(), path, tail.as_str())
}

// ---------------------------------------------------------------------------
// The composer
// ---------------------------------------------------------------------------

/// The text being typed and the menus above it.
pub struct Composer {
    pub text: String,
    /// Position of the cursor, in characters.
    pub cursor: usize,
    pub selected_suggestion_index: usize,
    pub selected_skill_index: usize,
    /// Names and descriptions of the known skills.
    pub skill_catalog: Vec<(String, String)>,
    pub skill_suggestions: Vec<(String, String)>,
    pub mention_suggestions: Vec<String>,
    /// Number of the latest mention lookup; answers to older ones are stale.
    pub mention_seq: u64,
    /// The lookup that waits to be sent.
    pub mention_request: Option<(u64, String)>,
}

/// What a composer holds.
#[verifier::ext_equal]
pub ghost struct ComposerModel {
    pub text: Seq<char>,
    pub cursor: int,
    pub selected_suggestion: int,
    pub selected_skill: int,
    pub catalog: Seq<(Seq<char>, Seq<char>)>,
    pub skills: Seq<(Seq<char>, Seq<char>)>,
    pub mentions: Seq<Seq<char>>,
    pub mention_seq: u64,
    pub mention_request: Option<(u64, Seq<char>)>,
}

/// The number after `n`; numbers start over at the end.
pub open spec fn next_number(n: u64) -> u64 {
    if n == u64::MAX {
        0
    } else {
        (n + 1) as u64
    }
}

pub fn count_on(n: u64) -> (r: u64)
    ensures
        r == next_number(n),
{
    if n == u64::MAX {
        0
    } else {
        n + 1
    }
}

/// The smaller number.
pub open spec fn least(a: int, b: int) -> int {
    if a < b {
        a
    } else {
        b
    }
}

impl ComposerModel {
    pub open spec fn wf(self) -> bool {
        0 <= self.cursor <= self.text.len()
    }

    /// The skills that the text offers; the command menu goes first.
    pub open spec fn offered_skills(self) -> Seq<(Seq<char>, Seq<char>)> {
        match skill_query(self.text) {
            Some(query) => if slash::command_menu(self.text).len() == 0 {
                skill_menu(self.catalog, query, slash::command_names())
            } else {
                Seq::empty()
            },
            None => Seq::empty(),
        }
    }

    /// The skill menu brought up to date with the text.
    pub open spec fn skills_refreshed(self) -> ComposerModel {
        ComposerModel { skills: self.offered_skills(), selected_skill: 0, ..self }
    }

    /// The mention lookup brought up to date with the text and the cursor: a
    /// new number in any case, so that no older answer reopens the menu.
    pub open spec fn mentions_refreshed(self) -> ComposerModel {
        let seq = next_number(self.mention_seq);
        match mention_at(self.text, self.cursor) {
            Some(m) => ComposerModel {
                mention_seq: seq,
                mention_request: Some((seq, m.2)),
                ..self
            },
            None => ComposerModel {
                mention_seq: seq,
                mention_request: None,
                mentions: Seq::empty(),
                ..self
            },
        }
    }

    /// The composer after the answer to a mention lookup: one that is not the
    /// newest changes nothing.
    pub open spec fn mentions_found(self, seq: u64, paths: Seq<Seq<char>>) -> ComposerModel {
        if seq == self.mention_seq {
            ComposerModel { mentions: paths, ..self }
        } else {
            self
        }
    }

    /// The composer after an edit. A changed text resets the menus.
    pub open spec fn edited(self, next_text: Seq<char>, next_cursor: int) -> ComposerModel {
        let placed = ComposerModel {
            text: next_text,
            cursor: least(next_cursor, next_text.len() as int),
            ..self
        };
        if next_text != self.text {
            ComposerModel { selected_suggestion: 0, ..placed.skills_refreshed() }
        } else {
            placed
        }.mentions_refreshed()
    }

    /// Text typed at the cursor.
    pub open spec fn inserted(self, insertion: Seq<char>) -> ComposerModel {
        self.edited(
            self.text.take(self.cursor) + insertion + self.text.skip(self.cursor),
            self.cursor + insertion.len(),
        )
    }

    /// The character before the cursor removed, where there is one.
    pub open spec fn erased(self) -> ComposerModel {
        if self.cursor > 0 {
            self.edited(
                self.text.take(self.cursor - 1) + self.text.skip(self.cursor),
                self.cursor - 1,
            )
        } else {
            self
        }
    }

    /// The cursor placed elsewhere.
    pub open spec fn moved(self, cursor: int) -> ComposerModel {
        self.edited(self.text, cursor)
    }

    /// Nothing typed.
    pub open spec fn emptied(self) -> ComposerModel {
        self.edited(Seq::empty(), 0)
    }

    /// How many rows the open menu has.
    pub open spec fn menu_length(self) -> nat {
        let commands = slash::command_menu(self.text).len();
        if commands > 0 {
            commands
        } else if self.skills.len() > 0 {
            self.skills.len()
        } else {
            self.mentions.len()
        }
    }

    /// Whether the open menu is the one of skills.
    pub open spec fn is_skill_menu(self) -> bool {
        slash::command_menu(self.text).len() == 0 && self.skills.len() > 0
    }

    /// The selection one row up, within the open menu.
    pub open spec fn selected_up(self) -> ComposerModel {
        if self.is_skill_menu() {
            ComposerModel {
                selected_skill: if self.selected_skill > 0 {
                    self.selected_skill - 1
                } else {
                    0
                },
                ..self
            }
        } else {
            ComposerModel {
                selected_suggestion: if self.selected_suggestion > 0 {
                    self.selected_suggestion - 1
                } else {
                    0
                },
                ..self
            }
        }
    }

    /// The selection one row down, within the open menu.
    pub open spec fn selected_down(self) -> ComposerModel {
        let last = self.menu_length() - 1;
        if self.is_skill_menu() {
            ComposerModel { selected_skill: least(self.selected_skill + 1, last), ..self }
        } else {
            ComposerModel { selected_suggestion: least(self.selected_suggestion + 1, last), ..self }
        }
    }

    /// The text with a command or skill completed, ready for arguments.
    pub open spec fn completed(self, name: Seq<char>) -> ComposerModel {
        let next = "/"@ + name + " "@;
        self.edited(next, next.len() as int)
    }

    /// Whether there is a selection to accept.
    pub open spec fn can_accept(self) -> bool {
        ||| slash::command_menu(self.text).len() > 0
        ||| self.skills.len() > 0
        ||| (mention_at(self.text, self.cursor) is Some && self.mentions.len() > 0)
    }

    /// The selected row accepted: a command, a skill, or the path of a
    /// mention.
    pub open spec fn accepted(self) -> ComposerModel {
        let commands = slash::command_menu(self.text);
        if commands.len() > 0 {
            self.completed(commands[least(self.selected_suggestion, commands.len() - 1)])
        } else if self.skills.len() > 0 {
            self.completed(self.skills[least(self.selected_skill, self.skills.len() - 1)].0)
        } else {
            match mention_at(self.text, self.cursor) {
                Some(m) => if self.mentions.len() > 0 {
                    let path = self.mentions[least(
                        self.selected_suggestion,
                        self.mentions.len() - 1,
                    )];
                    self.edited(
                        self.text.take(m.0) + path + self.text.skip(m.1),
                        m.0 + path.len(),
                    )
                } else {
                    self
                },
                None => self,
            }
        }
    }

    /// Whether the text already is the only row of the open menu.
    pub open spec fn is_exact(self) -> bool {
        let commands = slash::command_menu(self.text);
        ||| (commands.len() == 1 && "/"@ + commands[0] == text::trimmed(self.text))
        ||| (commands.len() == 0 && self.skills.len() == 1 && "/"@ + self.skills[0].0
            == text::trimmed(self.text))
    }
}

impl View for Composer {
    type V = ComposerModel;

    open spec fn view(&self) -> ComposerModel {
        ComposerModel {
            text: self.text@,
            cursor: self.cursor as int,
            selected_suggestion: self.selected_suggestion_index as int,
            selected_skill: self.selected_skill_index as int,
            catalog: pair_models(self.skill_catalog@),
            skills: pair_models(self.skill_suggestions@),
            mentions: text::texts(self.mention_suggestions@),
            mention_seq: self.mention_seq,
            mention_request: match self.mention_request {
                Some((seq, path)) => Some((seq, path@)),
                None => None,
            },
        }
    }
}

fn min_index(a: usize, b: usize) -> (r: usize)
    ensures
        r == least(a as int, b as int),
{
    if a < b {
        a
    } else {
        b
    }
}

impl Composer {
    pub fn new(skill_catalog: Vec<(String, String)>) -> (r: Self)
        ensures
            r@ == (ComposerModel {
                text: Seq::empty(),
                cursor: 0,
                selected_suggestion: 0,
                selected_skill: 0,
                catalog: pair_models(skill_catalog@),
                skills: Seq::empty(),
                mentions: Seq::empty(),
                mention_seq: 0,
                mention_request: None,
            }),
            r@.wf(),
    {
        let r = Composer {
            text: String::new(),
            cursor: 0,
            selected_suggestion_index: 0,
            selected_skill_index: 0,
            skill_catalog,
            skill_suggestions: Vec::new(),
            mention_suggestions: Vec::new(),
            mention_seq: 0,
            mention_request: None,
        };
        assert(r@.skills =~= Seq::empty());
        assert(r@.mentions =~= Seq::empty());
        r
    }

    fn refresh_skill_suggestions(&mut self)
        ensures
            final(self)@ == old(self)@.skills_refreshed(),
    {
        let commands = get_slash_command_suggestions(self.text.as_str());
        let mut offered: Vec<(String, String)> = Vec::new();
        assert(pair_models(offered@) =~= Seq::empty());
        match skill_suggestion_query(self.text.as_str()) {
            Some(query) => {
                if commands.len() == 0 {
                    let builtins = slash_names();
                    offered = filter_skill_catalog(&self.skill_catalog, query.as_str(), &builtins);
                }
            },
            None => {},
        }
        self.skill_suggestions = offered;
        self.selected_skill_index = 0;
    }

    fn refresh_mentions(&mut self)
        ensures
            final(self)@ == old(self)@.mentions_refreshed(),
    {
        let seq: u64 = count_on(self.mention_seq);
        self.mention_seq = seq;
        match get_active_chat_file_mention(self.text.as_str(), self.cursor) {
            Some(mention) => {
                self.mention_request = Some((seq, mention.path_text));
            },
            None => {
                self.mention_request = None;
                self.mention_suggestions = Vec::new();
                assert(self@.mentions =~= Seq::empty());
            },
        }
    }

    /// Replaces the text and places the cursor, at the text's end at most.
    pub fn apply_edit(&mut self, next_text: String, next_cursor: usize)
        ensures
            final(self)@ == old(self)@.edited(next_text@, next_cursor as int),
            final(self)@.wf(),
    {
        let length: usize = next_text.as_str().unicode_len();
        let changed = !same(next_text.as_str(), self.text.as_str());
        self.text = next_text;
        self.cursor = min_index(next_cursor, length);
        if changed {
            self.selected_suggestion_index = 0;
            self.refresh_skill_suggestions();
        }
        self.refresh_mentions();
    }

    /// Types text at the cursor.
    pub fn insert_text(&mut self, insertion: &str)
        requires
            old(self)@.wf(),
        ensures
            final(self)@ == old(self)@.inserted(insertion@),
            final(self)@.wf(),
    {
        let x = chars_of(self.text.as_str());
        let head = sub_string(&x, 0, self.cursor);
        let tail = sub_string(&x, self.cursor, x.len());
        assert(head@ =~= self.text@.take(self.cursor as int));
        assert(tail@ =~= self.text@.skip(self.cursor as int));
        let next = concat3(head.as_str(), insertion, tail.as_str());
        let end: usize = next.as_str().unicode_len() - tail.as_str().unicode_len();
        self.apply_edit(next, end);
    }

    /// Removes the character before the cursor; at the start nothing happens.
    pub fn erase(&mut self)
        requires
            old(self)@.wf(),
        ensures
            final(self)@ == old(self)@.erased(),
            final(self)@.wf(),
    {
        if self.cursor == 0 {
            return ;
        }
        let x = chars_of(self.text.as_str());
        let at: usize = self.cursor;
        let head = sub_string(&x, 0, at - 1);
        let tail = sub_string(&x, at, x.len());
        assert(head@ =~= self.text@.take(at - 1));
        assert(tail@ =~= self.text@.skip(at as int));
        self.apply_edit(concat2(head.as_str(), tail.as_str()), at - 1);
    }

    /// Places the cursor, at the text's end at most.
    pub fn move_to(&mut self, cursor: usize)
        ensures
            final(self)@ == old(self)@.moved(cursor as int),
            final(self)@.wf(),
    {
        let same_text = self.text.clone();
        self.apply_edit(same_text, cursor);
    }

    /// Drops what was typed.
    pub fn clear(&mut self)
        ensures
            final(self)@ == old(self)@.emptied(),
            final(self)@.wf(),
    {
        self.apply_edit(String::new(), 0);
    }

    /// How many rows the open menu has.
    pub fn menu_length(&self) -> (r: usize)
        ensures
            r == self@.menu_length(),
    {
        let commands = get_slash_command_suggestions(self.text.as_str());
        assert(commands@.len() == slash::command_menu(self@.text).len());
        if commands.len() > 0 {
            commands.len()
        } else if self.skill_suggestions.len() > 0 {
            self.skill_suggestions.len()
        } else {
            self.mention_suggestions.len()
        }
    }

    fn skill_menu_open(&self) -> (r: bool)
        ensures
            r == self@.is_skill_menu(),
    {
        let commands = get_slash_command_suggestions(self.text.as_str());
        assert(commands@.len() == slash::command_menu(self@.text).len());
        commands.len() == 0 && self.skill_suggestions.len() > 0
    }

    /// Moves the selection one row up.
    pub fn select_up(&mut self)
        requires
            old(self)@.wf(),
        ensures
            final(self)@ == old(self)@.selected_up(),
            final(self)@.wf(),
    {
        if self.skill_menu_open() {
            if self.selected_skill_index > 0 {
                self.selected_skill_index = self.selected_skill_index - 1;
            }
        } else if self.selected_suggestion_index > 0 {
            self.selected_suggestion_index = self.selected_suggestion_index - 1;
        }
    }

    /// Moves the selection one row down, to the last row at most.
    pub fn select_down(&mut self)
        requires
            old(self)@.wf(),
            old(self)@.menu_length() > 0,
        ensures
            final(self)@ == old(self)@.selected_down(),
            final(self)@.wf(),
    {
        let last: usize = self.menu_length() - 1;
        if self.skill_menu_open() {
            if self.selected_skill_index < last {
                self.selected_skill_index = self.selected_skill_index + 1;
            } else {
                self.selected_skill_index = last;
            }
        } else if self.selected_suggestion_index < last {
            self.selected_suggestion_index = self.selected_suggestion_index + 1;
        } else {
            self.selected_suggestion_index = last;
        }
    }

    fn complete(&mut self, name: &str)
        ensures
            final(self)@ == old(self)@.completed(name@),
            final(self)@.wf(),
    {
        let next = concat3("/", name, " ");
        let length: usize = next.as_str().unicode_len();
        self.apply_edit(next, length);
    }

    /// Accepts the selected row of the open menu: a command or a skill is
    /// completed without being submitted, a mention gets its path. Returns
    /// whether there was anything to accept.
    pub fn accept_suggestion(&mut self) -> (r: bool)
        requires
            old(self)@.wf(),
        ensures
            final(self)@ == old(self)@.accepted(),
            r == old(self)@.can_accept(),
            final(self)@.wf(),
    {
        let commands = get_slash_command_suggestions(self.text.as_str());
        assert(commands@.len() == slash::command_menu(self@.text).len());
        if commands.len() > 0 {
            let at: usize = min_index(self.selected_suggestion_index, commands.len() - 1);
            assert(slash::command_menu(self@.text)[at as int] == commands@[at as int]@);
            self.complete(commands[at].as_str());
            return true;
        }
        if self.skill_suggestions.len() > 0 {
            let at: usize = min_index(
                self.selected_skill_index,
                self.skill_suggestions.len() - 1,
            );
            let name = self.skill_suggestions[at].0.clone();
            self.complete(name.as_str());
            return true;
        }
        match get_active_chat_file_mention(self.text.as_str(), self.cursor) {
            Some(mention) => {
                if self.mention_suggestions.len() > 0 {
                    let at: usize = min_index(
                        self.selected_suggestion_index,
                        self.mention_suggestions.len() - 1,
                    );
                    let path = self.mention_suggestions[at].clone();
                    let next = replace_active_chat_file_mention(
                        self.text.as_str(),
                        &mention,
                        path.as_str(),
                    );
                    let x = chars_of(self.text.as_str());
                    let rest: usize = x.len() - mention.path_end;
                    let end: usize = next.as_str().unicode_len() - rest;
                    self.apply_edit(next, end);
                    return true;
                }
            },
            None => {},
        }
        false
    }

    /// Whether the text already is the only row of the open menu.
    pub fn is_exact(&self) -> (r: bool)
        ensures
            r == self@.is_exact(),
    {
        let commands = get_slash_command_suggestions(self.text.as_str());
        assert(commands@.len() == slash::command_menu(self@.text).len());
        let typed = trim(self.text.as_str());
        if commands.len() == 1 {
            assert(slash::command_menu(self@.text)[0] == commands@[0]@);
            let whole = concat2("/", commands[0].as_str());
            return same(whole.as_str(), typed.as_str());
        }
        if commands.len() == 0 && self.skill_suggestions.len() == 1 {
            let whole = concat2("/", self.skill_suggestions[0].0.as_str());
            return same(whole.as_str(), typed.as_str());
        }
        false
    }

    /// The answer to a mention lookup: taken only where it answers the latest
    /// one. Returns whether it was.
    pub fn adopt_mentions(&mut self, seq: u64, paths: Vec<String>) -> (r: bool)
        requires
            old(self)@.wf(),
        ensures
            r == (seq == old(self)@.mention_seq),
            final(self)@ == (if r {
                ComposerModel { mentions: text::texts(paths@), ..old(self)@ }
            } else {
                old(self)@
            }),
            final(self)@ == old(self)@.mentions_found(seq, text::texts(paths@)),
            final(self)@.wf(),
    {
        if seq != self.mention_seq {
            return false;
        }
        self.mention_suggestions = paths;
        true
    }
}

// ---------------------------------------------------------------------------
// Laws
// ---------------------------------------------------------------------------

proof fn lemma_matching(
    catalog: Seq<(Seq<char>, Seq<char>)>,
    query: Seq<char>,
    builtins: Seq<Seq<char>>,
    by_name: bool,
    i: int,
)
    requires
        0 <= i < matching(catalog, query, builtins, by_name).len(),
    ensures
        ({
            let e = matching(catalog, query, builtins, by_name)[i];
            if by_name {
                matches_name(e, query, builtins)
            } else {
                matches_segment(e, query, builtins)
            }
        }),
    decreases catalog.len(),
{
    if catalog.len() > 0 {
        if i < matching(catalog.drop_last(), query, builtins, by_name).len() {
            lemma_matching(catalog.drop_last(), query, builtins, by_name, i);
        }
    }
}

/// The skill menu is short, never offers the name of a command, and offers
/// only skills that the query may still become.
pub proof fn law_the_skill_menu_is_short_and_unshadowed(
    catalog: Seq<(Seq<char>, Seq<char>)>,
    query: Seq<char>,
    builtins: Seq<Seq<char>>,
    i: int,
)
    requires
        0 <= i < skill_menu(catalog, query, builtins).len(),
    ensures
        skill_menu(catalog, query, builtins).len() <= SKILL_MENU_LIMIT,
        ({
            let e = skill_menu(catalog, query, builtins)[i];
            let lower = text::ascii_lowered(query);
            &&& !is_shadowed(e.0, builtins)
            &&& (slash::begins_with(text::ascii_lowered(e.0), lower) || slash::begins_with(
                text::ascii_lowered(last_segment(e.0)),
                lower,
            ))
        }),
{
    let lower = text::ascii_lowered(query);
    let first = matching(catalog, lower, builtins, true);
    if i < first.len() {
        lemma_matching(catalog, lower, builtins, true, i);
    } else {
        lemma_matching(catalog, lower, builtins, false, i - first.len());
    }
}

/// The cursor never leaves the text.
pub proof fn law_the_cursor_stays_in_the_text(c: ComposerModel, next: Seq<char>, cursor: int)
    requires
        0 <= cursor,
    ensures
        c.edited(next, cursor).wf(),
        c.emptied().wf(),
{
}

/// Erasing what was just typed gives the text and the cursor back.
pub proof fn law_erasing_undoes_typing(c: ComposerModel, ch: char)
    requires
        c.wf(),
    ensures
        c.inserted(seq![ch]).erased().text == c.text,
        c.inserted(seq![ch]).erased().cursor == c.cursor,
{
    let typed = c.text.take(c.cursor) + seq![ch] + c.text.skip(c.cursor);
    let n = c.cursor + 1;
    assert(typed.take(n - 1) =~= c.text.take(c.cursor));
    assert(typed.skip(n) =~= c.text.skip(c.cursor));
    assert(c.text.take(c.cursor) + c.text.skip(c.cursor) =~= c.text);
}

/// Every edit makes the answer to an earlier mention lookup stale.
pub proof fn law_an_edit_outdates_mention_lookups(c: ComposerModel, next: Seq<char>, cursor: int)
    ensures
        c.edited(next, cursor).mention_seq != c.mention_seq,
{
}

/// Typing puts the text in at the cursor, moves the cursor behind it and leaves
/// the rest of the text in place.
pub proof fn law_typing_goes_in_at_the_cursor(
    c: ComposerModel,
    before: Seq<char>,
    s: Seq<char>,
    after: Seq<char>,
)
    requires
        c.text == before + after,
        c.cursor == before.len(),
    ensures
        c.inserted(s).text == before + s + after,
        c.inserted(s).cursor == before.len() + s.len(),
        c.inserted(s).catalog == c.catalog,
{
    assert(c.text.take(c.cursor) =~= before);
    assert(c.text.skip(c.cursor) =~= after);
}

/// Erasing takes the character before the cursor and nothing else; at the start
/// of the text it takes nothing.
pub proof fn law_erasing_takes_the_character_before_the_cursor(
    c: ComposerModel,
    before: Seq<char>,
    gone: char,
    after: Seq<char>,
)
    ensures
        c.text == before + seq![gone] + after && c.cursor == before.len() + 1 ==> {
            &&& c.erased().text == before + after
            &&& c.erased().cursor == before.len()
        },
        c.cursor == 0 ==> c.erased() == c,
{
    if c.text == before + seq![gone] + after && c.cursor == before.len() + 1 {
        assert(c.text.take(c.cursor - 1) =~= before);
        assert(c.text.skip(c.cursor) =~= after);
    }
}

/// The cursor goes where it is sent, to the end of the text at most, and moving
/// it changes no text. Emptying leaves nothing.
pub proof fn law_the_cursor_goes_where_it_is_sent(c: ComposerModel, at: int)
    requires
        0 <= at,
    ensures
        c.moved(at).text == c.text,
        at <= c.text.len() ==> c.moved(at).cursor == at,
        at > c.text.len() ==> c.moved(at).cursor == c.text.len(),
        c.moved(at).skills == c.skills,
        c.moved(at).selected_skill == c.selected_skill,
        c.moved(at).selected_suggestion == c.selected_suggestion,
        c.emptied().text.len() == 0,
        c.emptied().cursor == 0,
{
}

/// A changed text opens its menus anew, with the first row selected; the skills
/// that are offered are those of the new text.
pub proof fn law_a_changed_text_opens_its_menus_anew(c: ComposerModel, next: Seq<char>, cursor: int)
    requires
        next != c.text,
    ensures
        c.edited(next, cursor).text == next,
        c.edited(next, cursor).selected_suggestion == 0,
        c.edited(next, cursor).selected_skill == 0,
        c.edited(next, cursor).skills == (ComposerModel { text: next, ..c }).offered_skills(),
{
}

/// A menu is walked row by row and has its ends: up from the first row and down
/// from the last stay there. The text is not touched.
pub proof fn law_a_menu_is_walked_row_by_row(c: ComposerModel)
    requires
        c.menu_length() > 0,
        0 <= c.selected_skill < c.menu_length(),
        0 <= c.selected_suggestion < c.menu_length(),
    ensures
        c.selected_up().text == c.text,
        c.selected_down().text == c.text,
        ({
            let skills = slash::command_menu(c.text).len() == 0 && c.skills.len() > 0;
            let at = |m: ComposerModel| if skills {
                m.selected_skill
            } else {
                m.selected_suggestion
            };
            let last = c.menu_length() - 1;
            &&& at(c) > 0 ==> at(c.selected_up()) == at(c) - 1
            &&& at(c) == 0 ==> at(c.selected_up()) == 0
            &&& at(c) < last ==> at(c.selected_down()) == at(c) + 1
            &&& at(c) == last ==> at(c.selected_down()) == last
        }),
{
}

/// The rows of the open menu: the commands where there are any, else the
/// skills, else the paths of a mention.
pub proof fn law_commands_are_offered_first(c: ComposerModel)
    ensures
        ({
            let commands = slash::command_menu(c.text);
            &&& commands.len() > 0 ==> c.menu_length() == commands.len()
            &&& commands.len() == 0 && c.skills.len() > 0 ==> c.menu_length() == c.skills.len()
            &&& commands.len() == 0 && c.skills.len() == 0 ==> c.menu_length() == c.mentions.len()
        }),
{
}

/// Accepting a command or a skill writes it out, with a slash before it and a
/// space behind, and puts the cursor there. Accepting a path writes it in the
/// place of what was typed of it.
pub proof fn law_accepting_writes_the_selected_row(c: ComposerModel)
    requires
        0 <= c.selected_suggestion,
        0 <= c.selected_skill,
    ensures
        ({
            let commands = slash::command_menu(c.text);
            let next = c.accepted();
            &&& commands.len() > 0 && c.selected_suggestion < commands.len() ==> next.text
                == seq!['/'] + commands[c.selected_suggestion] + seq![' '] && next.cursor
                == next.text.len()
            &&& commands.len() == 0 && c.selected_skill < c.skills.len() ==> next.text == seq!['/']
                + c.skills[c.selected_skill].0 + seq![' '] && next.cursor == next.text.len()
            &&& commands.len() == 0 && c.skills.len() == 0 ==> (mention_at(c.text, c.cursor)
                matches Some((from, to, typed)) ==> (0 <= from && c.selected_suggestion
                < c.mentions.len() ==> {
                let path = c.mentions[c.selected_suggestion];
                &&& next.text == c.text.take(from) + path + c.text.skip(to)
                &&& from <= c.text.len() ==> next.cursor == from + path.len()
            }))
        }),
{
    reveal_strlit("/");
    reveal_strlit(" ");
    assert("/"@ =~= seq!['/']);
    assert(" "@ =~= seq![' ']);
}

/// A mention is an at sign at the start of a token, with the cursor behind it:
/// what is looked up is what stands between the sign and the cursor, and what
/// will be replaced is the whole token behind the sign.
pub proof fn law_a_mention_is_a_token_behind_an_at_sign(
    before: Seq<char>,
    typed: Seq<char>,
    rest: Seq<char>,
    after: Seq<char>,
)
    requires
        before.len() > 0 ==> text::is_space(before.last()),
        forall|i: int| 0 <= i < typed.len() ==> !text::is_space(#[trigger] typed[i]),
        forall|i: int| 0 <= i < rest.len() ==> !text::is_space(#[trigger] rest[i]),
        after.len() > 0 ==> text::is_space(after[0]),
    ensures
        ({
            let s = before + seq!['@'] + typed + rest + after;
            let from = before.len() as int + 1;
            mention_at(s, from + typed.len()) == Some(
                (from, from + typed.len() + rest.len(), typed),
            )
        }),
{
    let s = before + seq!['@'] + typed + rest + after;
    let n = before.len() as int;
    let cursor = n + 1 + typed.len();
    assert forall|i: int| n <= i < cursor implies !text::is_space(#[trigger] s[i]) by {
        if i > n {
            assert(s[i] == typed[i - n - 1]);
        }
    }
    if n > 0 {
        assert(s[n - 1] == before.last());
    }
    lemma_token_start(s, cursor, n);
    assert forall|i: int| cursor <= i < cursor + rest.len() implies !text::is_space(
        #[trigger] s[i],
    ) by {
        assert(s[i] == rest[i - cursor]);
    }
    if after.len() > 0 {
        assert(s[cursor + rest.len()] == after[0]);
    }
    lemma_token_end(s, cursor, cursor + rest.len());
    assert(s.subrange(n + 1, cursor) =~= typed);
}

proof fn lemma_token_start(s: Seq<char>, i: int, start: int)
    requires
        0 <= start <= i <= s.len(),
        forall|k: int| start <= k < i ==> !text::is_space(#[trigger] s[k]),
        start > 0 ==> text::is_space(s[start - 1]),
    ensures
        token_start(s, i) == start,
    decreases i - start,
{
    if start < i {
        assert(!text::is_space(s[i - 1]));
        lemma_token_start(s, i - 1, start);
    }
}

proof fn lemma_token_end(s: Seq<char>, i: int, end: int)
    requires
        0 <= i <= end <= s.len(),
        forall|k: int| i <= k < end ==> !text::is_space(#[trigger] s[k]),
        end < s.len() ==> text::is_space(s[end]),
    ensures
        token_end(s, i) == end,
    decreases end - i,
{
    if i < end {
        assert(!text::is_space(s[i]));
        lemma_token_end(s, i + 1, end);
    }
}

/// Without an at sign at its start the token under the cursor is no mention.
pub proof fn law_other_tokens_are_no_mentions(before: Seq<char>, token: Seq<char>, after: Seq<char>)
    requires
        before.len() > 0 ==> text::is_space(before.last()),
        forall|i: int| 0 <= i < token.len() ==> !text::is_space(#[trigger] token[i]),
        token.len() > 0 ==> token[0] != '@',
    ensures
        mention_at(before + token + after, (before.len() + token.len()) as int) is None,
{
    let s = before + token + after;
    let n = before.len() as int;
    let cursor = n + token.len();
    assert forall|i: int| n <= i < cursor implies !text::is_space(#[trigger] s[i]) by {
        assert(s[i] == token[i - n]);
    }
    if n > 0 {
        assert(s[n - 1] == before.last());
    }
    lemma_token_start(s, cursor, n);
    if token.len() > 0 {
        assert(s[n] == token[0]);
    }
}

/// The last segment of a qualified name stands behind its last colon; a name
/// without a colon is its own.
pub proof fn law_the_last_segment_stands_behind_the_last_colon(a: Seq<char>, b: Seq<char>)
    requires
        forall|i: int| 0 <= i < b.len() ==> #[trigger] b[i] != ':',
    ensures
        last_segment(a + seq![':'] + b) == b,
        last_segment(b) == b,
{
    let s = a + seq![':'] + b;
    lemma_segment(s, s.len(), a.len() as int + 1);
    assert(s.skip(a.len() as int + 1) =~= b);
    lemma_segment(b, b.len(), 0);
    assert(b.skip(0) =~= b);
}

proof fn lemma_segment(name: Seq<char>, n: nat, start: int)
    requires
        0 <= start <= n <= name.len(),
        forall|i: int| start <= i < n ==> #[trigger] name[i] != ':',
        start > 0 ==> name[start - 1] == ':',
    ensures
        segment_start(name, n) == start,
    decreases n,
{
    if start < n {
        assert(name[n - 1] != ':');
        lemma_segment(name, (n - 1) as nat, start);
    }
}

/// The menu of a query is every skill whose name begins with it, in the order
/// of the catalog, then every skill of which only the last segment does, eight
/// at most. A skill with the name of a command is left out.
pub proof fn law_the_skill_menu_offers_every_match(
    catalog: Seq<(Seq<char>, Seq<char>)>,
    query: Seq<char>,
    builtins: Seq<Seq<char>>,
)
    ensures
        ({
            let q = text::ascii_lowered(query);
            let named = |e: (Seq<char>, Seq<char>)|
                !is_shadowed(e.0, builtins) && slash::begins_with(text::ascii_lowered(e.0), q);
            let ended = |e: (Seq<char>, Seq<char>)|
                !is_shadowed(e.0, builtins) && !slash::begins_with(text::ascii_lowered(e.0), q)
                    && slash::begins_with(text::ascii_lowered(last_segment(e.0)), q);
            let all = catalog.filter(named) + catalog.filter(ended);
            &&& all.len() <= 8 ==> skill_menu(catalog, query, builtins) == all
            &&& all.len() > 8 ==> skill_menu(catalog, query, builtins) == all.take(8)
        }),
{
    let q = text::ascii_lowered(query);
    let named = |e: (Seq<char>, Seq<char>)|
        !is_shadowed(e.0, builtins) && slash::begins_with(text::ascii_lowered(e.0), q);
    let ended = |e: (Seq<char>, Seq<char>)|
        !is_shadowed(e.0, builtins) && !slash::begins_with(text::ascii_lowered(e.0), q)
            && slash::begins_with(text::ascii_lowered(last_segment(e.0)), q);
    lemma_matching_is_filter(catalog, q, builtins, true, named);
    lemma_matching_is_filter(catalog, q, builtins, false, ended);
}

proof fn lemma_matching_is_filter(
    catalog: Seq<(Seq<char>, Seq<char>)>,
    query: Seq<char>,
    builtins: Seq<Seq<char>>,
    by_name: bool,
    hit: spec_fn((Seq<char>, Seq<char>)) -> bool,
)
    requires
        forall|e: (Seq<char>, Seq<char>)|
            #[trigger] hit(e) == (if by_name {
                matches_name(e, query, builtins)
            } else {
                matches_segment(e, query, builtins)
            }),
    ensures
        matching(catalog, query, builtins, by_name) == catalog.filter(hit),
    decreases catalog.len(),
{
    reveal(Seq::filter);
    if catalog.len() > 0 {
        lemma_matching_is_filter(catalog.drop_last(), query, builtins, by_name, hit);
        assert(hit(catalog.last()) == hit(catalog.last()));
    } else {
        assert(matching(catalog, query, builtins, by_name) =~= catalog.filter(hit));
    }
}

/// A skill is shadowed by a command of the same name, whatever the case of the
/// letters.
pub proof fn law_a_command_shadows_the_skill_of_its_name(
    name: Seq<char>,
    builtins: Seq<Seq<char>>,
    i: int,
)
    requires
        0 <= i < builtins.len(),
        text::ascii_lowered(builtins[i]) == text::ascii_lowered(name),
    ensures
        is_shadowed(name, builtins),
        !is_shadowed(name, Seq::empty()),
{
}

/// What is seen of a composer is what it holds, field by field.
pub proof fn law_a_composer_is_seen_as_it_is(it: Composer)
    ensures
        it@.text == it.text@,
        it@.cursor == it.cursor as int,
        it@.selected_suggestion == it.selected_suggestion_index as int,
        it@.selected_skill == it.selected_skill_index as int,
        it@.catalog == pair_models(it.skill_catalog@),
        it@.skills == pair_models(it.skill_suggestions@),
        it@.mentions == text::texts(it.mention_suggestions@),
        it@.mention_seq == it.mention_seq,
        it@.mention_request == (match it.mention_request {
                Some((seq, path)) => Some((seq, path@)),
                None => None,
            }),
{
}

/// A lone slash and a token ask for skills by that token, in any case of its
/// letters; a text with white space inside, or without the slash, does not.
pub proof fn law_a_lone_token_asks_for_skills(token: Seq<char>, other: Seq<char>)
    requires
        forall|i: int| 0 <= i < token.len() ==> !text::is_space(#[trigger] token[i]),
        other.len() > 0 ==> other[0] != '/',
    ensures
        skill_query(seq!['/'] + token) == Some(text::ascii_lowered(token)),
        skill_query(other) is None,
{
    let typed = seq!['/'] + token;
    assert(typed.skip(1) =~= token);
    assert(typed.last() == if token.len() > 0 {
        token[token.len() - 1]
    } else {
        '/'
    });
    assert(typed =~= Seq::<char>::empty() + typed + Seq::<char>::empty());
    text::law_trimming_gives_the_middle(Seq::empty(), typed, Seq::empty());
    if slash::has_space(typed) {
        let i = choose|i: int| 0 <= i < typed.len() && text::is_space(#[trigger] typed[i]);
        if i > 0 {
            assert(typed[i] == token[i - 1]);
        }
    }
}

/// The text already is the only row of the menu exactly where there is one row
/// and it is typed out; there is something to accept where a menu has a row.
pub proof fn law_a_typed_out_row_is_exact(c: ComposerModel)
    ensures
        ({
            let commands = slash::command_menu(c.text);
            let typed = text::trimmed(c.text);
            &&& commands.len() == 1 ==> (c.is_exact() <==> "/"@ + commands[0] == typed)
            &&& commands.len() > 1 ==> !c.is_exact()
            &&& commands.len() == 0 && c.skills.len() == 1 ==> (c.is_exact() <==> "/"@
                + c.skills[0].0 == typed)
            &&& commands.len() == 0 && c.skills.len() != 1 ==> !c.is_exact()
            &&& commands.len() > 0 || c.skills.len() > 0 ==> c.can_accept()
            &&& commands.len() == 0 && c.skills.len() == 0 && c.mentions.len() == 0
                ==> !c.can_accept()
        }),
{
}

/// An edit looks its mention up anew, under a number of its own; without a
/// mention the menu of paths is closed.
pub proof fn law_an_edit_looks_its_mention_up(c: ComposerModel, next: Seq<char>, cursor: int)
    requires
        0 <= cursor <= next.len(),
    ensures
        ({
            let after = c.edited(next, cursor);
            &&& mention_at(next, cursor) matches Some((from, to, path)) ==> after.mention_request
                == Some((after.mention_seq, path)) && after.mentions == c.mentions
            &&& mention_at(next, cursor) is None ==> after.mention_request is None
                && after.mentions.len() == 0
        }),
{
}

/// The answer to the newest lookup fills the menu of paths, in order; an older
/// one is dropped.
pub proof fn law_only_the_newest_lookup_fills_the_menu(
    c: ComposerModel,
    seq: u64,
    paths: Seq<Seq<char>>,
)
    ensures
        c.mentions_found(c.mention_seq, paths).mentions == paths,
        c.mentions_found(c.mention_seq, paths).text == c.text,
        c.mentions_found(c.mention_seq, paths).cursor == c.cursor,
        seq != c.mention_seq ==> c.mentions_found(seq, paths) == c,
{
}

} // verus!
