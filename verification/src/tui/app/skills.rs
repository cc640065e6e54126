//! Skills: the rows that the picker shows, the search over them, and which of
//! them are active in the session.

use vstd::prelude::*;
use crate::text;
use crate::text::{concat3, contains, format_decimal, same, to_ascii_lower};
use crate::transcript::clone_opt;
use crate::tui::app::overlay;
use crate::tui::app::overlay::{ItemModel, PickerItem};

verus! {

/// Where a skill comes from.
#[derive(Clone, Copy, Debug, PartialEq, Eq, Structural)]
pub enum SkillSource {
    Builtin,
    Marketplace,
    Project,
    User,
}

/// A skill as the picker shows it.
#[derive(Debug, PartialEq)]
pub struct SkillRow {
    pub description: String,
    /// The marketplace key, where it has one.
    pub key: Option<String>,
    /// Whether the marketplace holds it back.
    pub locked: bool,
    pub name: String,
    pub source: SkillSource,
    /// Its rough size.
    pub tokens: usize,
}

impl Clone for SkillRow {
    fn clone(&self) -> (r: Self)
        ensures
            r == *self,
    {
        SkillRow {
            description: self.description.clone(),
            key: clone_opt(&self.key),
            locked: self.locked,
            name: self.name.clone(),
            source: self.source,
            tokens: self.tokens,
        }
    }
}

/// A skill that was found, with the size of its content in bytes where that
/// could be read.
#[derive(Debug, PartialEq)]
pub struct FoundSkill {
    pub description: String,
    pub key: Option<String>,
    pub name: String,
    pub source: SkillSource,
    pub bytes: Option<usize>,
}

/// A skill of a marketplace plugin, and whether it is enabled.
#[derive(Debug, PartialEq)]
pub struct PluginSkill {
    pub description: String,
    pub enabled: bool,
    pub key: String,
    pub name: String,
    pub bytes: Option<usize>,
}

/// The name of a source.
pub open spec fn source_name(source: SkillSource) -> Seq<char> {
    match source {
        SkillSource::Builtin => "builtin"@,
        SkillSource::Marketplace => "marketplace"@,
        SkillSource::Project => "project"@,
        SkillSource::User => "user"@,
    }
}

pub fn source_label(source: SkillSource) -> (r: &'static str)
    ensures
        r@ == source_name(source),
{
    match source {
        SkillSource::Builtin => "builtin",
        SkillSource::Marketplace => "marketplace",
        SkillSource::Project => "project",
        SkillSource::User => "user",
    }
}

/// What a row says of its origin: the marketplace key, else the source.
pub open spec fn origin(row: SkillRow) -> Seq<char> {
    match row.key {
        Some(key) => key@,
        None => source_name(row.source),
    }
}

pub fn skill_origin(row: &SkillRow) -> (r: String)
    ensures
        r@ == origin(*row),
{
    match &row.key {
        Some(key) => key.clone(),
        None => source_label(row.source).to_string(),
    }
}

/// The rough size of content in tokens: a quarter of its bytes, at least one.
pub open spec fn token_estimate(bytes: Option<usize>) -> usize {
    match bytes {
        Some(n) => if n / 4 > 1 {
            n / 4
        } else {
            1
        },
        None => 1,
    }
}

pub fn estimate_tokens(bytes: Option<usize>) -> (r: usize)
    ensures
        r == token_estimate(bytes),
        r >= 1,
{
    match bytes {
        Some(n) => if n / 4 > 1 {
            n / 4
        } else {
            1
        },
        None => 1,
    }
}

/// The row of a skill that was found.
pub open spec fn found_row(skill: FoundSkill) -> SkillRow {
    SkillRow {
        description: skill.description,
        key: skill.key,
        locked: false,
        name: skill.name,
        source: skill.source,
        tokens: token_estimate(skill.bytes),
    }
}

/// The row of a skill that its marketplace holds back.
pub open spec fn locked_row(skill: PluginSkill) -> SkillRow {
    SkillRow {
        description: skill.description,
        key: Some(skill.key),
        locked: true,
        name: skill.name,
        source: SkillSource::Marketplace,
        tokens: token_estimate(skill.bytes),
    }
}

/// The rows of the plugin skills that are not enabled.
pub open spec fn locked_rows(skills: Seq<PluginSkill>) -> Seq<SkillRow>
    decreases skills.len(),
{
    if skills.len() == 0 {
        Seq::empty()
    } else if skills.last().enabled {
        locked_rows(skills.drop_last())
    } else {
        locked_rows(skills.drop_last()).push(locked_row(skills.last()))
    }
}

/// The picker's rows: every skill that was found, then the plugin skills that
/// are held back, which show but do not toggle.
pub fn collect_skill_rows(found: &Vec<FoundSkill>, plugin_skills: &Vec<PluginSkill>) -> (r: Vec<
    SkillRow,
>)
    ensures
        r@ == Seq::new(found@.len(), |i: int| found_row(found@[i])) + locked_rows(plugin_skills@),
{
    let ghost first = Seq::new(found@.len(), |i: int| found_row(found@[i]));
    let mut rows: Vec<SkillRow> = Vec::new();
    let mut i: usize = 0;
    while i < found.len()
        invariant
            i <= found.len(),
            first == Seq::new(found@.len(), |i: int| found_row(found@[i])),
            rows@ == first.take(i as int),
        decreases found.len() - i,
    {
        let skill = &found[i];
        rows.push(
            SkillRow {
                description: skill.description.clone(),
                key: clone_opt(&skill.key),
                locked: false,
                name: skill.name.clone(),
                source: skill.source,
                tokens: estimate_tokens(skill.bytes),
            },
        );
        assert(first.take(i + 1) =~= first.take(i as int).push(first[i as int]));
        i = i + 1;
    }
    assert(first.take(i as int) =~= first);
    let mut j: usize = 0;
    assert(plugin_skills@.take(0) =~= Seq::empty());
    assert(rows@ =~= first + locked_rows(plugin_skills@.take(0)));
    while j < plugin_skills.len()
        invariant
            j <= plugin_skills.len(),
            rows@ == first + locked_rows(plugin_skills@.take(j as int)),
        decreases plugin_skills.len() - j,
    {
        assert(plugin_skills@.take(j + 1).drop_last() =~= plugin_skills@.take(j as int));
        let skill = &plugin_skills[j];
        if !skill.enabled {
            rows.push(
                SkillRow {
                    description: skill.description.clone(),
                    key: Some(skill.key.clone()),
                    locked: true,
                    name: skill.name.clone(),
                    source: SkillSource::Marketplace,
                    tokens: estimate_tokens(skill.bytes),
                },
            );
        }
        j = j + 1;
        assert(rows@ =~= first + locked_rows(plugin_skills@.take(j as int)));
    }
    assert(plugin_skills@.take(j as int) =~= plugin_skills@);
    rows
}

// ---------------------------------------------------------------------------
// The search
// ---------------------------------------------------------------------------

/// Whether a row matches a search: its name or its description holds the text,
/// in any case.
pub open spec fn matches_search(row: SkillRow, filter: Seq<char>) -> bool {
    let query = text::ascii_lowered(filter);
    ||| query.len() == 0
    ||| text::has_text(text::ascii_lowered(row.name@), query)
    ||| text::has_text(text::ascii_lowered(row.description@), query)
}

/// The rows that match a search, in their order.
pub open spec fn visible_rows(rows: Seq<SkillRow>, filter: Seq<char>) -> Seq<SkillRow>
    decreases rows.len(),
{
    if rows.len() == 0 {
        Seq::empty()
    } else if matches_search(rows.last(), filter) {
        visible_rows(rows.drop_last(), filter).push(rows.last())
    } else {
        visible_rows(rows.drop_last(), filter)
    }
}

/// The rows that match a search.
pub fn visible_skill_rows(rows: &Vec<SkillRow>, filter: &str) -> (r: Vec<SkillRow>)
    ensures
        r@ == visible_rows(rows@, filter@),
{
    let query = to_ascii_lower(filter);
    let mut out: Vec<SkillRow> = Vec::new();
    let mut i: usize = 0;
    assert(rows@.take(0) =~= Seq::empty());
    while i < rows.len()
        invariant
            i <= rows.len(),
            query@ == text::ascii_lowered(filter@),
            out@ == visible_rows(rows@.take(i as int), filter@),
        decreases rows.len() - i,
    {
        assert(rows@.take(i + 1).drop_last() =~= rows@.take(i as int));
        let name = to_ascii_lower(rows[i].name.as_str());
        let description = to_ascii_lower(rows[i].description.as_str());
        if query.as_str().unicode_len() == 0 || contains(name.as_str(), query.as_str())
            || contains(description.as_str(), query.as_str()) {
            out.push(rows[i].clone());
        }
        i = i + 1;
    }
    assert(rows@.take(i as int) =~= rows@);
    out
}

/// The picker row of a skill.
pub open spec fn skill_item(row: SkillRow) -> ItemModel {
    ItemModel {
        detail: Some(
            origin(row) + " \u{b7} ~"@ + text::decimal(row.tokens as nat) + " tok"@ + (
            if row.locked {
                " \u{b7} locked by plugin"@
            } else {
                ""@
            }),
        ),
        id: row.name@,
        label: row.name@,
    }
}

/// The picker rows of skills.
pub open spec fn skill_items(rows: Seq<SkillRow>) -> Seq<ItemModel> {
    Seq::new(rows.len(), |i: int| skill_item(rows[i]))
}

/// The picker rows of the skills that match a search.
pub fn skill_picker_items(rows: &Vec<SkillRow>, filter: &str) -> (r: Vec<PickerItem>)
    ensures
        overlay::item_models(r@) == skill_items(visible_rows(rows@, filter@)),
{
    let shown = visible_skill_rows(rows, filter);
    let ghost all = skill_items(shown@);
    let mut out: Vec<PickerItem> = Vec::new();
    let mut i: usize = 0;
    assert(overlay::item_models(out@) =~= all.take(0));
    while i < shown.len()
        invariant
            i <= shown.len(),
            all == skill_items(shown@),
            overlay::item_models(out@) == all.take(i as int),
        decreases shown.len() - i,
    {
        broadcast use overlay::lemma_items_push;

        let row = &shown[i];
        let from = skill_origin(row);
        let tokens = format_decimal(row.tokens as u64);
        let mut detail = concat3(from.as_str(), " \u{b7} ~", tokens.as_str());
        detail.append(" tok");
        if row.locked {
            detail.append(" \u{b7} locked by plugin");
        } else {
            detail.append("");
        }
        out.push(
            PickerItem { detail: Some(detail), id: row.name.clone(), label: row.name.clone() },
        );
        assert(all.take(i + 1) =~= all.take(i as int).push(all[i as int]));
        i = i + 1;
    }
    assert(all.take(i as int) =~= all);
    out
}

/// Whether a row of that name is held back.
pub open spec fn is_locked(rows: Seq<SkillRow>, name: Seq<char>) -> bool {
    exists|i: int| 0 <= i < rows.len() && #[trigger] rows[i].name@ == name && rows[i].locked
}

/// Whether a row of that name is held back.
pub fn skill_is_locked(rows: &Vec<SkillRow>, name: &str) -> (r: bool)
    ensures
        r == is_locked(rows@, name@),
{
    let mut i: usize = 0;
    while i < rows.len()
        invariant
            i <= rows.len(),
            forall|k: int|
                0 <= k < i ==> !(#[trigger] rows@[k].name@ == name@ && rows@[k].locked),
        decreases rows.len() - i,
    {
        if rows[i].locked && same(rows[i].name.as_str(), name) {
            assert(rows@[i as int].name@ == name@);
            return true;
        }
        i = i + 1;
    }
    false
}

// ---------------------------------------------------------------------------
// Active skills
// ---------------------------------------------------------------------------

/// A skill that is active in the session, with its content.
#[derive(Debug, PartialEq)]
pub struct LoadedSkill {
    pub name: String,
    pub content: String,
}

/// The names of active skills.
pub open spec fn active_names(v: Seq<LoadedSkill>) -> Seq<Seq<char>> {
    Seq::new(v.len(), |i: int| v[i].name@)
}

/// The skills of other names.
pub open spec fn without_name(v: Seq<LoadedSkill>, name: Seq<char>) -> Seq<LoadedSkill>
    decreases v.len(),
{
    if v.len() == 0 {
        Seq::empty()
    } else if v.last().name@ == name {
        without_name(v.drop_last(), name)
    } else {
        without_name(v.drop_last(), name).push(v.last())
    }
}

pub fn is_active(active: &Vec<LoadedSkill>, name: &str) -> (r: bool)
    ensures
        r == active_names(active@).contains(name@),
{
    let ghost all = active_names(active@);
    let mut i: usize = 0;
    while i < active.len()
        invariant
            i <= active.len(),
            all == active_names(active@),
            forall|k: int| 0 <= k < i ==> all[k] != name@,
        decreases active.len() - i,
    {
        if same(active[i].name.as_str(), name) {
            assert(all[i as int] == name@);
            return true;
        }
        i = i + 1;
    }
    false
}

/// The skills of other names.
pub fn deactivate(active: Vec<LoadedSkill>, name: &str) -> (r: Vec<LoadedSkill>)
    ensures
        r@ == without_name(active@, name@),
{
    let mut out: Vec<LoadedSkill> = Vec::new();
    let mut left = active;
    let mut n: usize = 0;
    let count: usize = left.len();
    assert(active@.skip(0) =~= active@);
    assert(active@.take(0) =~= Seq::empty());
    while n < count
        invariant
            n <= count,
            count == active@.len(),
            left@ == active@.skip(n as int),
            out@ == without_name(active@.take(n as int), name@),
        decreases count - n,
    {
        let skill = left.remove(0);
        assert(left@ =~= active@.skip(n + 1));
        assert(active@.take(n + 1).drop_last() =~= active@.take(n as int));
        if !same(skill.name.as_str(), name) {
            out.push(skill);
        }
        n = n + 1;
    }
    assert(active@.take(n as int) =~= active@);
    out
}

/// The first name of the catalog that equals `name` in any ASCII case.
pub open spec fn canonical(
    catalog: Seq<(Seq<char>, Seq<char>)>,
    name: Seq<char>,
) -> Option<Seq<char>>
    decreases catalog.len(),
{
    if catalog.len() == 0 {
        None
    } else {
        match canonical(catalog.drop_last(), name) {
            Some(found) => Some(found),
            None => if text::ascii_lowered(catalog.last().0) == text::ascii_lowered(name) {
                Some(catalog.last().0)
            } else {
                None
            },
        }
    }
}

proof fn lemma_canonical_stays(catalog: Seq<(Seq<char>, Seq<char>)>, name: Seq<char>, n: int)
    requires
        0 <= n <= catalog.len(),
        canonical(catalog.take(n), name) is Some,
    ensures
        canonical(catalog, name) == canonical(catalog.take(n), name),
    decreases catalog.len() - n,
{
    if n == catalog.len() {
        assert(catalog.take(n) =~= catalog);
    } else {
        assert(catalog.take(n + 1).drop_last() =~= catalog.take(n));
        lemma_canonical_stays(catalog, name, n + 1);
    }
}

/// The catalog's spelling of a typed name.
pub fn canonical_skill_name(catalog: &Vec<(String, String)>, name: &str) -> (r: Option<String>)
    ensures
        text::opt_text(r) == canonical(crate::tui::app::composer::pair_models(catalog@), name@),
{
    let lower = to_ascii_lower(name);
    let ghost all = crate::tui::app::composer::pair_models(catalog@);
    let mut i: usize = 0;
    assert(all.take(0) =~= Seq::empty());
    while i < catalog.len()
        invariant
            i <= catalog.len(),
            lower@ == text::ascii_lowered(name@),
            all == crate::tui::app::composer::pair_models(catalog@),
            canonical(all.take(i as int), name@) is None,
        decreases catalog.len() - i,
    {
        assert(all.take(i + 1).drop_last() =~= all.take(i as int));
        assert(all.take(i + 1).last() == all[i as int]);
        let candidate = to_ascii_lower(catalog[i].0.as_str());
        if same(candidate.as_str(), lower.as_str()) {
            proof {
                lemma_canonical_stays(all, name@, i + 1);
            }
            return Some(catalog[i].0.clone());
        }
        i = i + 1;
    }
    assert(all.take(i as int) =~= all);
    None
}

// ---------------------------------------------------------------------------
// Laws
// ---------------------------------------------------------------------------

/// A search only narrows the list: it shows rows of the list that match, no
/// more of them than there are, and an empty one shows all of it.
pub proof fn law_a_search_only_narrows(rows: Seq<SkillRow>, filter: Seq<char>)
    ensures
        visible_rows(rows, filter).len() <= rows.len(),
        filter.len() == 0 ==> visible_rows(rows, filter) == rows,
        forall|i: int|
            0 <= i < visible_rows(rows, filter).len() ==> rows.contains(
                #[trigger] visible_rows(rows, filter)[i],
            ) && matches_search(visible_rows(rows, filter)[i], filter),
    decreases rows.len(),
{
    if rows.len() > 0 {
        law_a_search_only_narrows(rows.drop_last(), filter);
        let inner = visible_rows(rows.drop_last(), filter);
        assert forall|i: int| 0 <= i < visible_rows(rows, filter).len() implies rows.contains(
            #[trigger] visible_rows(rows, filter)[i],
        ) && matches_search(visible_rows(rows, filter)[i], filter) by {
            if i < inner.len() {
                let row = inner[i];
                let k = choose|k: int|
                    0 <= k < rows.drop_last().len() && rows.drop_last()[k] == row;
                assert(rows[k] == row);
            } else {
                assert(rows[rows.len() - 1] == rows.last());
            }
        }
        if filter.len() == 0 {
            assert(rows.drop_last().push(rows.last()) =~= rows);
        }
    } else {
        assert(visible_rows(rows, filter) =~= rows);
    }
}

/// A skill that was switched off is not active any more.
pub proof fn law_a_deactivated_skill_is_inactive(v: Seq<LoadedSkill>, name: Seq<char>)
    ensures
        !active_names(without_name(v, name)).contains(name),
    decreases v.len(),
{
    let r = without_name(v, name);
    if v.len() > 0 {
        law_a_deactivated_skill_is_inactive(v.drop_last(), name);
        let inner = without_name(v.drop_last(), name);
        if active_names(r).contains(name) {
            let i = choose|i: int| 0 <= i < active_names(r).len() && active_names(r)[i] == name;
            if i < inner.len() {
                assert(active_names(inner)[i] == name);
            }
        }
    }
}

/// A search keeps every skill whose name or description holds its text, in any
/// case of the letters, and keeps their order; an empty one keeps them all.
pub proof fn law_a_search_keeps_every_match(rows: Seq<SkillRow>, filter: Seq<char>)
    ensures
        visible_rows(rows, filter) == rows.filter(
            |row: SkillRow|
                filter.len() == 0 || text::has_text(
                    text::ascii_lowered(row.name@),
                    text::ascii_lowered(filter),
                ) || text::has_text(
                    text::ascii_lowered(row.description@),
                    text::ascii_lowered(filter),
                ),
        ),
    decreases rows.len(),
{
    reveal(Seq::filter);
    let kept = |row: SkillRow|
        filter.len() == 0 || text::has_text(
            text::ascii_lowered(row.name@),
            text::ascii_lowered(filter),
        ) || text::has_text(text::ascii_lowered(row.description@), text::ascii_lowered(filter));
    if rows.len() > 0 {
        law_a_search_keeps_every_match(rows.drop_last(), filter);
        assert(kept(rows.last()) == matches_search(rows.last(), filter));
    } else {
        assert(visible_rows(rows, filter) =~= rows.filter(kept));
    }
}

/// A plugin skill is held back exactly while it is not enabled; its row says so
/// and names its key.
pub proof fn law_skills_that_are_not_enabled_are_locked(skills: Seq<PluginSkill>, skill: PluginSkill)
    ensures
        locked_rows(Seq::empty()) == Seq::<SkillRow>::empty(),
        skill.enabled ==> locked_rows(skills.push(skill)) == locked_rows(skills),
        !skill.enabled ==> locked_rows(skills.push(skill)) == locked_rows(skills).push(
            locked_row(skill),
        ),
        locked_row(skill).locked,
        locked_row(skill).name == skill.name,
        locked_row(skill).key == Some(skill.key),
        locked_row(skill).description == skill.description,
        locked_row(skill).source == SkillSource::Marketplace,
{
    assert(skills.push(skill).drop_last() =~= skills);
}

/// A skill that was found is not locked and keeps what it says of itself. Its
/// size is told as a quarter of its bytes, one at least.
pub proof fn law_a_found_skill_is_told_as_it_is(skill: FoundSkill, n: usize)
    ensures
        !found_row(skill).locked,
        found_row(skill).name == skill.name,
        found_row(skill).description == skill.description,
        found_row(skill).key == skill.key,
        found_row(skill).source == skill.source,
        n >= 4 ==> token_estimate(Some(n)) == n / 4,
        n < 4 ==> token_estimate(Some(n)) == 1,
        token_estimate(None) == 1,
{
}

/// The row of a skill stands for it: its origin, which is its key where it has
/// one, and its size, and that it is locked where it is.
pub proof fn law_a_skill_row_tells_origin_and_size(row: SkillRow)
    ensures
        ({
            let item = skill_item(row);
            let from = match row.key {
                Some(key) => key@,
                None => source_name(row.source),
            };
            &&& item.id == row.name@
            &&& item.label == row.name@
            &&& row.locked ==> item.detail == Some(
                from + " · ~"@ + text::decimal(row.tokens as nat) + " tok"@ + " · locked by plugin"@,
            )
            &&& !row.locked ==> item.detail == Some(
                from + " · ~"@ + text::decimal(row.tokens as nat) + " tok"@,
            )
        }),
        source_name(SkillSource::Builtin) == "builtin"@,
        source_name(SkillSource::Marketplace) == "marketplace"@,
        source_name(SkillSource::Project) == "project"@,
        source_name(SkillSource::User) == "user"@,
{
    reveal_strlit("");
    let told = origin(row) + " · ~"@ + text::decimal(row.tokens as nat) + " tok"@;
    assert(told + ""@ =~= told);
}

/// A skill is found under any case of its letters, by the first name of the
/// catalog that matches, as it is written there; else it is not found.
pub proof fn law_a_skill_is_found_in_any_case(
    catalog: Seq<(Seq<char>, Seq<char>)>,
    name: Seq<char>,
    i: int,
)
    requires
        0 <= i < catalog.len(),
        forall|j: int|
            0 <= j < i ==> text::ascii_lowered((#[trigger] catalog[j]).0) != text::ascii_lowered(
                name,
            ),
    ensures
        text::ascii_lowered(catalog[i].0) == text::ascii_lowered(name) ==> canonical(catalog, name)
            == Some(catalog[i].0),
        i == catalog.len() - 1 && text::ascii_lowered(catalog[i].0) != text::ascii_lowered(name)
            ==> canonical(catalog, name) is None,
        canonical(Seq::empty(), name) is None,
    decreases catalog.len(),
{
    let init = catalog.drop_last();
    if i < init.len() {
        assert forall|j: int| 0 <= j < i implies text::ascii_lowered((#[trigger] init[j]).0)
            != text::ascii_lowered(name) by {
            assert(init[j] == catalog[j]);
        }
        law_a_skill_is_found_in_any_case(init, name, i);
    } else if init.len() > 0 {
        assert forall|j: int| 0 <= j < i - 1 implies text::ascii_lowered((#[trigger] init[j]).0)
            != text::ascii_lowered(name) by {
            assert(init[j] == catalog[j]);
        }
        assert(init[i - 1] == catalog[i - 1]);
        law_a_skill_is_found_in_any_case(init, name, i - 1);
    }
}

/// Switching a skill off takes out every skill of its name and no other, and
/// keeps the order.
pub proof fn law_switching_off_takes_one_name_out(v: Seq<LoadedSkill>, name: Seq<char>)
    ensures
        without_name(v, name) == v.filter(|s: LoadedSkill| s.name@ != name),
    decreases v.len(),
{
    reveal(Seq::filter);
    if v.len() > 0 {
        law_switching_off_takes_one_name_out(v.drop_last(), name);
    } else {
        assert(without_name(v, name) =~= v.filter(|s: LoadedSkill| s.name@ != name));
    }
}

/// A skill is locked exactly where a row of its name is; the names of the
/// active skills are theirs, in order.
pub proof fn law_a_locked_row_locks_its_name(
    rows: Seq<SkillRow>,
    name: Seq<char>,
    v: Seq<LoadedSkill>,
    i: int,
)
    ensures
        0 <= i < rows.len() && rows[i].name@ == name && rows[i].locked ==> is_locked(rows, name),
        (forall|j: int| 0 <= j < rows.len() ==> (#[trigger] rows[j]).name@ != name || !rows[j].locked)
            ==> !is_locked(rows, name),
        active_names(v).len() == v.len(),
        0 <= i < v.len() ==> active_names(v)[i] == v[i].name@,
{
}

} // verus!
