//! Marketplaces: what `/marketplace` and `/plugin` ask for, and what they say.

use vstd::prelude::*;
use crate::text;
use crate::text::{concat2, concat3, contains, format_decimal, join_texts, same, split_words};
use crate::tui::app::effects::{Effect, EffectModel};
use crate::tui::app::replies;
use crate::tui::app::replies::{dashed_text, push_issues};
use crate::tui::app::state::{AppModel, TuiApp};
use crate::tui::evals::push_row;

verus! {

/// A registered marketplace.
pub struct MarketplaceReport {
    pub name: String,
    pub kind: String,
    pub source: String,
}

/// A skill or a role of a plugin.
pub struct PluginPart {
    pub key: String,
    pub name: String,
    pub description: Option<String>,
    pub enabled: bool,
}

/// A plugin of a marketplace.
pub struct PluginReport {
    pub key: String,
    pub marketplace_name: String,
    pub description: String,
    pub enabled: bool,
    pub skills: Vec<PluginPart>,
    pub roles: Vec<PluginPart>,
}

/// The registered marketplaces, what they hold, and what is wrong with them.
pub struct MarketplaceState {
    pub records: Vec<MarketplaceReport>,
    pub plugins: Vec<PluginReport>,
    pub issues: Vec<String>,
}

// ---------------------------------------------------------------------------
// The listing
// ---------------------------------------------------------------------------

/// How what is on is marked.
pub open spec fn on_mark(enabled: bool) -> Seq<char> {
    if enabled {
        "●"@
    } else {
        "○"@
    }
}

fn mark_of(enabled: bool) -> (r: &'static str)
    ensures
        r@ == on_mark(enabled),
{
    if enabled {
        "●"
    } else {
        "○"
    }
}

/// The line of a plugin.
pub open spec fn plugin_line(plugin: PluginReport) -> Seq<char> {
    "  "@ + on_mark(plugin.enabled) + " "@ + plugin.key@ + (if plugin.description@.len() == 0 {
        Seq::empty()
    } else {
        " — "@ + plugin.description@
    })
}

/// The line of a skill or a role.
pub open spec fn part_line(kind: Seq<char>, part: PluginPart) -> Seq<char> {
    "      "@ + on_mark(part.enabled) + kind + part.name@ + replies::dashed(part.description)
}

/// The lines of skills or roles.
pub open spec fn part_lines(kind: Seq<char>, parts: Seq<PluginPart>) -> Seq<Seq<char>> {
    Seq::new(parts.len(), |i: int| part_line(kind, parts[i]))
}

/// The lines of a plugin and what it holds.
pub open spec fn plugin_lines(plugin: PluginReport) -> Seq<Seq<char>> {
    seq![plugin_line(plugin)] + part_lines(" skill "@, plugin.skills@) + part_lines(
        " role "@,
        plugin.roles@,
    )
}

/// The lines of the plugins of a marketplace.
pub open spec fn plugins_lines(plugins: Seq<PluginReport>, marketplace: Seq<char>) -> Seq<Seq<char>>
    decreases plugins.len(),
{
    if plugins.len() == 0 {
        Seq::empty()
    } else {
        let before = plugins_lines(plugins.drop_last(), marketplace);
        if plugins.last().marketplace_name@ == marketplace {
            before + plugin_lines(plugins.last())
        } else {
            before
        }
    }
}

/// The lines of marketplaces.
pub open spec fn marketplaces_lines(
    records: Seq<MarketplaceReport>,
    plugins: Seq<PluginReport>,
) -> Seq<Seq<char>>
    decreases records.len(),
{
    if records.len() == 0 {
        Seq::empty()
    } else {
        let m = records.last();
        marketplaces_lines(records.drop_last(), plugins).push(
            m.name@ + " ("@ + m.kind@ + ": "@ + m.source@ + ")"@,
        ) + plugins_lines(plugins, m.name@)
    }
}

/// What `/marketplace list` says where there is none.
pub const NO_MARKETPLACES: &'static str =
    "no marketplaces registered. Add one with /marketplace add <git-url-or-path> [name].";

/// The closing line of the listing.
pub const TOGGLE_HINT: &'static str =
    "toggle with /plugin enable|disable <marketplace/plugin[/skill]>.";

/// What `/marketplace list` says.
pub open spec fn marketplaces_said(
    records: Seq<MarketplaceReport>,
    plugins: Seq<PluginReport>,
    issues: Seq<Seq<char>>,
) -> Seq<char> {
    if records.len() == 0 {
        NO_MARKETPLACES@
    } else {
        text::joined(
            (marketplaces_lines(records, plugins) + replies::issue_lines(issues)).push(
                Seq::empty(),
            ).push(TOGGLE_HINT@),
            "\n"@,
        )
    }
}

fn push_parts(lines: &mut Vec<String>, kind: &str, parts: &Vec<PluginPart>)
    ensures
        text::texts(final(lines)@) == text::texts(old(lines)@) + part_lines(kind@, parts@),
{
    let ghost start = text::texts(lines@);
    let ghost all = part_lines(kind@, parts@);
    let mut i: usize = 0;
    assert(start =~= start + all.take(0));
    while i < parts.len()
        invariant
            i <= parts.len(),
            all == part_lines(kind@, parts@),
            text::texts(lines@) == start + all.take(i as int),
        decreases parts.len() - i,
    {
        let mut line = concat3("      ", mark_of(parts[i].enabled), kind);
        line.append(parts[i].name.as_str());
        line.append(dashed_text(&parts[i].description).as_str());
        push_row(lines, line);
        assert(all.take(i + 1) =~= all.take(i as int).push(all[i as int]));
        assert(start + all.take(i + 1) =~= (start + all.take(i as int)).push(all[i as int]));
        i = i + 1;
    }
    assert(all.take(i as int) =~= all);
}

fn push_plugin(lines: &mut Vec<String>, plugin: &PluginReport)
    ensures
        text::texts(final(lines)@) == text::texts(old(lines)@) + plugin_lines(*plugin),
{
    let ghost start = text::texts(lines@);
    let mut line = concat3("  ", mark_of(plugin.enabled), " ");
    line.append(plugin.key.as_str());
    if plugin.description.as_str().unicode_len() > 0 {
        line.append(concat2(" — ", plugin.description.as_str()).as_str());
    } else {
        assert(line@ =~= line@ + Seq::<char>::empty());
    }
    push_row(lines, line);
    push_parts(lines, " skill ", &plugin.skills);
    push_parts(lines, " role ", &plugin.roles);
    assert(text::texts(lines@) =~= start + plugin_lines(*plugin));
}

fn push_plugins(lines: &mut Vec<String>, plugins: &Vec<PluginReport>, marketplace: &str)
    ensures
        text::texts(final(lines)@) == text::texts(old(lines)@) + plugins_lines(
            plugins@,
            marketplace@,
        ),
{
    let ghost start = text::texts(lines@);
    let mut i: usize = 0;
    assert(start =~= start + plugins_lines(plugins@.take(0), marketplace@));
    while i < plugins.len()
        invariant
            i <= plugins.len(),
            text::texts(lines@) == start + plugins_lines(plugins@.take(i as int), marketplace@),
        decreases plugins.len() - i,
    {
        assert(plugins@.take(i + 1).drop_last() =~= plugins@.take(i as int));
        if same(plugins[i].marketplace_name.as_str(), marketplace) {
            push_plugin(lines, &plugins[i]);
        }
        i = i + 1;
        assert(text::texts(lines@) =~= start + plugins_lines(
            plugins@.take(i as int),
            marketplace@,
        ));
    }
    assert(plugins@.take(i as int) =~= plugins@);
}

/// What `/marketplace list` says: each marketplace, its plugins, and what of
/// them is on.
pub fn marketplaces_text(
    records: &Vec<MarketplaceReport>,
    plugins: &Vec<PluginReport>,
    issues: &Vec<String>,
) -> (r: String)
    ensures
        r@ == marketplaces_said(records@, plugins@, text::texts(issues@)),
{
    if records.len() == 0 {
        return NO_MARKETPLACES.to_string();
    }
    let mut lines: Vec<String> = Vec::new();
    let mut i: usize = 0;
    assert(text::texts(lines@) =~= marketplaces_lines(records@.take(0), plugins@));
    while i < records.len()
        invariant
            i <= records.len(),
            text::texts(lines@) == marketplaces_lines(records@.take(i as int), plugins@),
        decreases records.len() - i,
    {
        assert(records@.take(i + 1).drop_last() =~= records@.take(i as int));
        let m = &records[i];
        let mut line = concat3(m.name.as_str(), " (", m.kind.as_str());
        line.append(": ");
        line.append(m.source.as_str());
        line.append(")");
        push_row(&mut lines, line);
        push_plugins(&mut lines, plugins, m.name.as_str());
        i = i + 1;
    }
    assert(records@.take(i as int) =~= records@);
    push_issues(&mut lines, issues);
    push_row(&mut lines, String::new());
    push_row(&mut lines, TOGGLE_HINT.to_string());
    join_texts(&lines, "\n")
}

// ---------------------------------------------------------------------------
// Adding and updating
// ---------------------------------------------------------------------------

/// How many plugins, skills and roles a marketplace holds.
pub open spec fn holdings(plugins: Seq<PluginReport>, marketplace: Seq<char>) -> (nat, nat, nat)
    decreases plugins.len(),
{
    if plugins.len() == 0 {
        (0, 0, 0)
    } else {
        let before = holdings(plugins.drop_last(), marketplace);
        let plugin = plugins.last();
        if plugin.marketplace_name@ == marketplace {
            (before.0 + 1, before.1 + plugin.skills@.len(), before.2 + plugin.roles@.len())
        } else {
            before
        }
    }
}

/// The issues that name a marketplace.
pub open spec fn issues_about(issues: Seq<Seq<char>>, marketplace: Seq<char>) -> Seq<Seq<char>>
    decreases issues.len(),
{
    if issues.len() == 0 {
        Seq::empty()
    } else {
        let before = issues_about(issues.drop_last(), marketplace);
        if text::has_text(issues.last(), "\""@ + marketplace + "\""@) {
            before.push(issues.last())
        } else {
            before
        }
    }
}

/// The closing line of a registration.
pub const ENABLE_HINT: &'static str =
    "everything starts disabled — enable with /plugin enable <key> (see /marketplace list).";

/// What a registration says.
pub open spec fn added_said(
    record: MarketplaceReport,
    plugins: Seq<PluginReport>,
    issues: Seq<Seq<char>>,
) -> Seq<char> {
    let h = holdings(plugins, record.name@);
    text::joined(
        (seq![
            "registered \""@ + record.name@ + "\" ("@ + record.kind@ + "): "@ + text::decimal(h.0)
                + " plugin(s), "@ + text::decimal(h.1) + " skill(s), "@ + text::decimal(h.2)
                + " role(s)."@,
        ] + replies::issue_lines(issues_about(issues, record.name@))).push(ENABLE_HINT@),
        "\n"@,
    )
}

/// The counts of a registration fit.
pub open spec fn is_countable(plugins: Seq<PluginReport>, marketplace: Seq<char>) -> bool {
    holdings(plugins, marketplace).1 <= u64::MAX && holdings(plugins, marketplace).2 <= u64::MAX
}

proof fn lemma_holdings_grow(plugins: Seq<PluginReport>, marketplace: Seq<char>, n: int)
    requires
        0 <= n <= plugins.len(),
    ensures
        holdings(plugins.take(n), marketplace).1 <= holdings(plugins, marketplace).1,
        holdings(plugins.take(n), marketplace).2 <= holdings(plugins, marketplace).2,
        holdings(plugins, marketplace).0 <= plugins.len(),
    decreases plugins.len(),
{
    if plugins.len() > 0 {
        if n < plugins.len() {
            lemma_holdings_grow(plugins.drop_last(), marketplace, n);
            assert(plugins.drop_last().take(n) =~= plugins.take(n));
        } else {
            lemma_holdings_grow(plugins.drop_last(), marketplace, n - 1);
            assert(plugins.take(n) =~= plugins);
        }
    } else {
        assert(plugins.take(n) =~= plugins);
    }
}

/// What a registration says: what the marketplace holds, and what is wrong with
/// it.
pub fn added_text(
    record: &MarketplaceReport,
    plugins: &Vec<PluginReport>,
    issues: &Vec<String>,
) -> (r: String)
    requires
        is_countable(plugins@, record.name@),
    ensures
        r@ == added_said(*record, plugins@, text::texts(issues@)),
{
    let ghost name = record.name@;
    let mut own: u64 = 0;
    let mut skill_count: u64 = 0;
    let mut role_count: u64 = 0;
    let mut i: usize = 0;
    while i < plugins.len()
        invariant
            i <= plugins.len(),
            name == record.name@,
            is_countable(plugins@, name),
            own <= i,
            (own as nat, skill_count as nat, role_count as nat) == holdings(
                plugins@.take(i as int),
                name,
            ),
        decreases plugins.len() - i,
    {
        proof {
            assert(plugins@.take(i + 1).drop_last() =~= plugins@.take(i as int));
            lemma_holdings_grow(plugins@, name, i + 1);
        }
        if same(plugins[i].marketplace_name.as_str(), record.name.as_str()) {
            own = own + 1;
            skill_count = skill_count + plugins[i].skills.len() as u64;
            role_count = role_count + plugins[i].roles.len() as u64;
        }
        i = i + 1;
    }
    assert(plugins@.take(i as int) =~= plugins@);
    let mut first = concat3("registered \"", record.name.as_str(), "\" (");
    first.append(record.kind.as_str());
    first.append("): ");
    first.append(format_decimal(own).as_str());
    first.append(" plugin(s), ");
    first.append(format_decimal(skill_count).as_str());
    first.append(" skill(s), ");
    first.append(format_decimal(role_count).as_str());
    first.append(" role(s).");
    let mut lines: Vec<String> = Vec::new();
    lines.push(first);
    assert(text::texts(lines@) =~= seq![first@]);
    let needle = concat3("\"", record.name.as_str(), "\"");
    let ghost told = text::texts(issues@);
    let mut about: Vec<String> = Vec::new();
    let mut k: usize = 0;
    assert(text::texts(about@) =~= issues_about(told.take(0), name));
    while k < issues.len()
        invariant
            k <= issues.len(),
            told == text::texts(issues@),
            needle@ == "\""@ + name + "\""@,
            text::texts(about@) == issues_about(told.take(k as int), name),
        decreases issues.len() - k,
    {
        assert(told.take(k + 1).drop_last() =~= told.take(k as int));
        assert(told.take(k + 1).last() == issues@[k as int]@);
        if contains(issues[k].as_str(), needle.as_str()) {
            push_row(&mut about, issues[k].clone());
        }
        k = k + 1;
    }
    assert(told.take(k as int) =~= told);
    push_issues(&mut lines, &about);
    push_row(&mut lines, ENABLE_HINT.to_string());
    join_texts(&lines, "\n")
}

/// What an update says.
pub fn updated_text(updated: &Vec<String>) -> (r: String)
    ensures
        r@ == (if updated@.len() == 0 {
            "nothing to update (local marketplaces read in place)."@
        } else {
            "updated: "@ + text::joined(text::texts(updated@), ", "@)
        }),
{
    if updated.len() == 0 {
        "nothing to update (local marketplaces read in place).".to_string()
    } else {
        concat2("updated: ", join_texts(updated, ", ").as_str())
    }
}

/// What a removal says.
pub fn removed_text(name: &str) -> (r: String)
    ensures
        r@ == "removed marketplace \""@ + name@ + "\"."@,
{
    concat3("removed marketplace \"", name, "\".")
}

// ---------------------------------------------------------------------------
// Plugins
// ---------------------------------------------------------------------------

/// Whether a part has a key.
pub open spec fn has_key(parts: Seq<PluginPart>, key: Seq<char>) -> bool {
    exists|i: int| 0 <= i < parts.len() && (#[trigger] parts[i]).key@ == key
}

/// Whether a key is that of a plugin, or of a part of one.
pub open spec fn is_known(plugins: Seq<PluginReport>, key: Seq<char>) -> bool {
    exists|i: int|
        0 <= i < plugins.len() && ((#[trigger] plugins[i]).key@ == key || has_key(
            plugins[i].skills@,
            key,
        ) || has_key(plugins[i].roles@, key))
}

fn part_has_key(parts: &Vec<PluginPart>, key: &str) -> (r: bool)
    ensures
        r == has_key(parts@, key@),
{
    let mut i: usize = 0;
    while i < parts.len()
        invariant
            i <= parts.len(),
            forall|j: int| 0 <= j < i ==> (#[trigger] parts@[j]).key@ != key@,
        decreases parts.len() - i,
    {
        if same(parts[i].key.as_str(), key) {
            assert(parts@[i as int].key@ == key@);
            return true;
        }
        i = i + 1;
    }
    false
}

/// Whether a key is that of a plugin, or of a part of one.
pub fn plugin_key_is_known(plugins: &Vec<PluginReport>, key: &str) -> (r: bool)
    ensures
        r == is_known(plugins@, key@),
{
    let mut i: usize = 0;
    while i < plugins.len()
        invariant
            i <= plugins.len(),
            forall|j: int|
                0 <= j < i ==> (#[trigger] plugins@[j]).key@ != key@ && !has_key(
                    plugins@[j].skills@,
                    key@,
                ) && !has_key(plugins@[j].roles@, key@),
        decreases plugins.len() - i,
    {
        if same(plugins[i].key.as_str(), key) || part_has_key(&plugins[i].skills, key)
            || part_has_key(&plugins[i].roles, key) {
            assert(plugins@[i as int].key@ == key@ || has_key(plugins@[i as int].skills@, key@)
                || has_key(plugins@[i as int].roles@, key@));
            return true;
        }
        i = i + 1;
    }
    false
}

/// What switching a plugin says.
pub open spec fn plugin_said(key: Seq<char>, enable: bool, known: bool) -> Seq<char> {
    key + (if enable {
        " enabled"@
    } else {
        " disabled"@
    }) + " (user scope; project overrides live in .drip/plugins.json)."@ + (if known {
        Seq::empty()
    } else {
        " Note: no registered plugin or skill currently matches \""@ + key
            + "\" — check /marketplace list."@
    })
}

/// What switching a plugin says; a key that nothing has gets a note.
pub fn plugin_text(key: &str, enable: bool, plugins: &Vec<PluginReport>) -> (r: String)
    ensures
        r@ == plugin_said(key@, enable, is_known(plugins@, key@)),
{
    let mut said = if enable {
        concat2(key, " enabled")
    } else {
        concat2(key, " disabled")
    };
    said.append(" (user scope; project overrides live in .drip/plugins.json).");
    if !plugin_key_is_known(plugins, key) {
        let note = concat3(
            " Note: no registered plugin or skill currently matches \"",
            key,
            "\" — check /marketplace list.",
        );
        said.append(note.as_str());
    } else {
        assert(said@ =~= said@ + Seq::<char>::empty());
    }
    said
}

// ---------------------------------------------------------------------------
// The commands
// ---------------------------------------------------------------------------

/// What `/plugin` takes.
pub const PLUGIN_USAGE: &'static str =
    "Usage: /plugin <enable|disable> <marketplace/plugin[/skill]>";

/// What `/marketplace` takes.
pub const MARKETPLACE_USAGE: &'static str =
    "Usage: /marketplace [add <repo> [name] | remove <name> | update [name] | list]";

impl AppModel {
    /// `/plugin`.
    pub open spec fn plugin_asked(self, args: Seq<char>) -> AppModel {
        let ws = text::words(args);
        if ws.len() < 2 || (ws[0] != "enable"@ && ws[0] != "disable"@) {
            self.error(PLUGIN_USAGE@)
        } else {
            self.with(EffectModel::SetPlugin(ws[0] == "enable"@, ws[1]))
        }
    }

    /// `/marketplace`.
    pub open spec fn marketplace_asked(self, args: Seq<char>) -> AppModel {
        let ws = text::words(args);
        if ws.len() == 0 || ws[0] == "list"@ {
            self.with(EffectModel::ListMarketplaces)
        } else if ws[0] == "add"@ {
            if ws.len() < 2 {
                self.error("Usage: /marketplace add <git-url-or-path> [name]"@)
            } else {
                self.info("adding marketplace from "@ + ws[1] + " ..."@).with(
                    EffectModel::AddMarketplace(
                        ws[1],
                        if ws.len() > 2 {
                            Some(ws[2])
                        } else {
                            None
                        },
                    ),
                )
            }
        } else if ws[0] == "remove"@ {
            if ws.len() < 2 {
                self.error("Usage: /marketplace remove <name>"@)
            } else {
                self.with(EffectModel::RemoveMarketplace(ws[1]))
            }
        } else if ws[0] == "update"@ {
            self.info("updating marketplace clone(s) ..."@).with(
                EffectModel::UpdateMarketplaces(
                    if ws.len() > 1 {
                        Some(ws[1])
                    } else {
                        None
                    },
                ),
            )
        } else {
            self.error(MARKETPLACE_USAGE@)
        }
    }
}

impl TuiApp {
    /// `/plugin <enable|disable> <key>`.
    pub fn plugin_command(&mut self, args: &str)
        requires
            old(self)@.wf(),
        ensures
            final(self)@ == old(self)@.plugin_asked(args@),
            final(self)@.wf(),
    {
        let ws = split_words(args);
        let n: usize = ws.len();
        assert(text::texts(ws@).len() == n);
        if n < 2 {
            self.push_error(PLUGIN_USAGE);
            return ;
        }
        assert(text::texts(ws@)[0] == ws@[0]@);
        assert(text::texts(ws@)[1] == ws@[1]@);
        let enable = same(ws[0].as_str(), "enable");
        if !enable && !same(ws[0].as_str(), "disable") {
            self.push_error(PLUGIN_USAGE);
            return ;
        }
        self.emit(Effect::SetPlugin { enable, key: ws[1].clone() });
    }

    /// `/marketplace [add|remove|update|list]`.
    pub fn marketplace_command(&mut self, args: &str)
        requires
            old(self)@.wf(),
        ensures
            final(self)@ == old(self)@.marketplace_asked(args@),
            final(self)@.wf(),
    {
        let ws = split_words(args);
        let n: usize = ws.len();
        assert(text::texts(ws@).len() == n);
        assert(forall|i: int| 0 <= i < n ==> #[trigger] text::texts(ws@)[i] == ws@[i]@);
        if n == 0 || same(ws[0].as_str(), "list") {
            self.emit(Effect::ListMarketplaces);
        } else if same(ws[0].as_str(), "add") {
            if n < 2 {
                self.push_error("Usage: /marketplace add <git-url-or-path> [name]");
            } else {
                let said = concat3("adding marketplace from ", ws[1].as_str(), " ...");
                self.push_info(said.as_str());
                let name = if n > 2 {
                    Some(ws[2].clone())
                } else {
                    None
                };
                self.emit(Effect::AddMarketplace { source: ws[1].clone(), name });
            }
        } else if same(ws[0].as_str(), "remove") {
            if n < 2 {
                self.push_error("Usage: /marketplace remove <name>");
            } else {
                self.emit(Effect::RemoveMarketplace(ws[1].clone()));
            }
        } else if same(ws[0].as_str(), "update") {
            self.push_info("updating marketplace clone(s) ...");
            let name = if n > 1 {
                Some(ws[1].clone())
            } else {
                None
            };
            self.emit(Effect::UpdateMarketplaces(name));
        } else {
            self.push_error(MARKETPLACE_USAGE);
        }
    }
}

// ---------------------------------------------------------------------------
// Laws
// ---------------------------------------------------------------------------

/// A plugin is switched by the word before its key: on by `enable`, off by
/// `disable`. Anything else shows the use and switches nothing.
pub proof fn law_a_plugin_is_switched_by_its_key(app: AppModel, args: Seq<char>)
    ensures
        ({
            let ws = text::words(args);
            &&& ws.len() >= 2 && ws[0] == "enable"@ ==> app.plugin_asked(args).effects
                == app.effects.push(EffectModel::SetPlugin(true, ws[1]))
            &&& ws.len() >= 2 && ws[0] == "disable"@ ==> app.plugin_asked(args).effects
                == app.effects.push(EffectModel::SetPlugin(false, ws[1]))
            &&& ws.len() < 2 || (ws[0] != "enable"@ && ws[0] != "disable"@) ==> app.plugin_asked(
                args,
            ) == app.error("Usage: /plugin <enable|disable> <marketplace/plugin[/skill]>"@)
        }),
{
    reveal_strlit("enable");
    reveal_strlit("disable");
    assert("enable"@.len() == 6 && "disable"@.len() == 7);
}

/// Each word of `/marketplace` asks for its own: the list, also without a word;
/// a new one from its source, under a name where one is given; the removal of
/// one; an update of one or of all.
pub proof fn law_each_word_of_marketplace_asks_for_its_own(app: AppModel, args: Seq<char>)
    ensures
        ({
            let ws = text::words(args);
            let next = app.marketplace_asked(args);
            &&& ws.len() == 0 || ws[0] == "list"@ ==> next.effects == app.effects.push(
                EffectModel::ListMarketplaces,
            )
            &&& ws.len() == 2 && ws[0] == "add"@ ==> next.effects.last()
                == EffectModel::AddMarketplace(ws[1], None)
            &&& ws.len() > 2 && ws[0] == "add"@ ==> next.effects.last()
                == EffectModel::AddMarketplace(ws[1], Some(ws[2]))
            &&& ws.len() == 1 && ws[0] == "add"@ ==> next == app.error(
                "Usage: /marketplace add <git-url-or-path> [name]"@,
            )
            &&& ws.len() >= 2 && ws[0] == "remove"@ ==> next.effects == app.effects.push(
                EffectModel::RemoveMarketplace(ws[1]),
            )
            &&& ws.len() == 1 && ws[0] == "remove"@ ==> next == app.error(
                "Usage: /marketplace remove <name>"@,
            )
            &&& ws.len() == 1 && ws[0] == "update"@ ==> next.effects.last()
                == EffectModel::UpdateMarketplaces(None)
            &&& ws.len() > 1 && ws[0] == "update"@ ==> next.effects.last()
                == EffectModel::UpdateMarketplaces(Some(ws[1]))
            &&& ws.len() > 0 && ws[0] != "list"@ && ws[0] != "add"@ && ws[0] != "remove"@ && ws[0]
                != "update"@ ==> next == app.error(
                "Usage: /marketplace [add <repo> [name] | remove <name> | update [name] | list]"@,
            )
        }),
{
    reveal_strlit("list");
    reveal_strlit("add");
    reveal_strlit("remove");
    reveal_strlit("update");
    assert("list"@.len() == 4 && "add"@.len() == 3 && "remove"@.len() == 6 && "update"@.len() == 6);
    assert("remove"@[0] == 'r' && "update"@[0] == 'u');
}

/// What a switched plugin says: that it is on or off, and that nothing matches
/// its key where nothing does.
pub proof fn law_a_switched_plugin_is_told(key: Seq<char>)
    ensures
        plugin_said(key, true, true) == key + " enabled"@
            + " (user scope; project overrides live in .drip/plugins.json)."@,
        plugin_said(key, false, true) == key + " disabled"@
            + " (user scope; project overrides live in .drip/plugins.json)."@,
        plugin_said(key, true, false) == key + " enabled"@
            + " (user scope; project overrides live in .drip/plugins.json)."@
            + (" Note: no registered plugin or skill currently matches \""@ + key
            + "\" — check /marketplace list."@),
{
    let on = key + " enabled"@ + " (user scope; project overrides live in .drip/plugins.json)."@;
    let off = key + " disabled"@ + " (user scope; project overrides live in .drip/plugins.json)."@;
    assert(on + Seq::<char>::empty() =~= on);
    assert(off + Seq::<char>::empty() =~= off);
}

/// A key is known where a plugin has it, or a skill or a role of one.
pub proof fn law_keys_of_plugins_and_parts_are_known(
    plugins: Seq<PluginReport>,
    key: Seq<char>,
    i: int,
    j: int,
)
    requires
        0 <= i < plugins.len(),
    ensures
        plugins[i].key@ == key ==> is_known(plugins, key),
        0 <= j < plugins[i].skills@.len() && plugins[i].skills@[j].key@ == key ==> is_known(
            plugins,
            key,
        ),
        0 <= j < plugins[i].roles@.len() && plugins[i].roles@[j].key@ == key ==> is_known(
            plugins,
            key,
        ),
        !is_known(Seq::empty(), key),
{
    if 0 <= j < plugins[i].skills@.len() && plugins[i].skills@[j].key@ == key {
        assert(has_key(plugins[i].skills@, key));
    }
    if 0 <= j < plugins[i].roles@.len() && plugins[i].roles@[j].key@ == key {
        assert(has_key(plugins[i].roles@, key));
    }
}

/// A registration counts what the marketplace itself brings: its plugins, and
/// their skills and roles, and nothing of another. Issues are told where they
/// name it.
pub proof fn law_a_registration_counts_its_own(
    plugins: Seq<PluginReport>,
    plugin: PluginReport,
    issues: Seq<Seq<char>>,
    issue: Seq<char>,
    name: Seq<char>,
)
    ensures
        plugin.marketplace_name@ == name ==> holdings(plugins.push(plugin), name) == (
            holdings(plugins, name).0 + 1,
            holdings(plugins, name).1 + plugin.skills@.len(),
            holdings(plugins, name).2 + plugin.roles@.len(),
        ),
        plugin.marketplace_name@ != name ==> holdings(plugins.push(plugin), name) == holdings(
            plugins,
            name,
        ),
        holdings(Seq::empty(), name) == (0nat, 0nat, 0nat),
        text::has_text(issue, "\""@ + name + "\""@) ==> issues_about(issues.push(issue), name)
            == issues_about(issues, name).push(issue),
        !text::has_text(issue, "\""@ + name + "\""@) ==> issues_about(issues.push(issue), name)
            == issues_about(issues, name),
{
    assert(plugins.push(plugin).drop_last() =~= plugins);
    assert(issues.push(issue).drop_last() =~= issues);
}

/// The listing shows every marketplace with its own plugins, each with its
/// skills and roles, and whether each of them is on.
pub proof fn law_every_plugin_is_listed(
    records: Seq<MarketplaceReport>,
    record: MarketplaceReport,
    plugins: Seq<PluginReport>,
    plugin: PluginReport,
    i: int,
)
    ensures
        marketplaces_lines(records.push(record), plugins) == marketplaces_lines(records, plugins)
            + seq![record.name@ + " ("@ + record.kind@ + ": "@ + record.source@ + ")"@]
            + plugins_lines(plugins, record.name@),
        plugin.marketplace_name@ == record.name@ ==> plugins_lines(
            plugins.push(plugin),
            record.name@,
        ) == plugins_lines(plugins, record.name@) + plugin_lines(plugin),
        plugin.marketplace_name@ != record.name@ ==> plugins_lines(
            plugins.push(plugin),
            record.name@,
        ) == plugins_lines(plugins, record.name@),
        plugin_lines(plugin).len() == 1 + plugin.skills@.len() + plugin.roles@.len(),
        plugin_lines(plugin)[0] == plugin_line(plugin),
        0 <= i < plugin.skills@.len() ==> plugin_lines(plugin)[1 + i] == part_line(
            " skill "@,
            plugin.skills@[i],
        ),
        0 <= i < plugin.roles@.len() ==> plugin_lines(plugin)[1 + plugin.skills@.len() + i]
            == part_line(" role "@, plugin.roles@[i]),
        on_mark(true) == "●"@,
        on_mark(false) == "○"@,
        plugin.description@.len() > 0 ==> plugin_line(plugin) == "  "@ + on_mark(plugin.enabled)
            + " "@ + plugin.key@ + (" — "@ + plugin.description@),
{
    assert(records.push(record).drop_last() =~= records);
    assert(plugins.push(plugin).drop_last() =~= plugins);
    assert(marketplaces_lines(records.push(record), plugins) =~= marketplaces_lines(
        records,
        plugins,
    ) + seq![record.name@ + " ("@ + record.kind@ + ": "@ + record.source@ + ")"@]
        + plugins_lines(plugins, record.name@));
}

/// The line of a part says whether it is on, what it is and how it is called.
pub proof fn law_a_part_is_listed_with_its_state(kind: Seq<char>, part: PluginPart)
    ensures
        part.enabled && part.description is Some ==> part_line(kind, part) == "      "@ + "●"@
            + kind + part.name@ + (" — "@ + part.description->0@),
        !part.enabled && part.description is Some ==> part_line(kind, part) == "      "@ + "○"@
            + kind + part.name@ + (" — "@ + part.description->0@),
        part.enabled && part.description is None ==> part_line(kind, part) == "      "@ + "●"@
            + kind + part.name@,
{
    let named = "      "@ + "●"@ + kind + part.name@;
    assert(named + Seq::<char>::empty() =~= named);
}

/// A registration is told with its name, its kind and what it brings, then the
/// issues that name it, then how to switch it on.
pub proof fn law_a_registration_is_told(
    record: MarketplaceReport,
    plugins: Seq<PluginReport>,
    issues: Seq<Seq<char>>,
)
    ensures
        ({
            let (p, s, r) = holdings(plugins, record.name@);
            added_said(record, plugins, issues) == text::joined(
                seq![
                    "registered \""@ + record.name@ + "\" ("@ + record.kind@ + "): "@
                        + text::decimal(p) + " plugin(s), "@ + text::decimal(s) + " skill(s), "@
                        + text::decimal(r) + " role(s)."@,
                ] + replies::issue_lines(issues_about(issues, record.name@)) + seq![
                    "everything starts disabled — enable with /plugin enable <key> (see /marketplace list)."@,
                ],
                "\n"@,
            )
        }),
        marketplaces_said(Seq::empty(), plugins, issues)
            == "no marketplaces registered. Add one with /marketplace add <git-url-or-path> [name]."@,
{
    let (p, s, r) = holdings(plugins, record.name@);
    let head = seq![
        "registered \""@ + record.name@ + "\" ("@ + record.kind@ + "): "@ + text::decimal(p)
            + " plugin(s), "@ + text::decimal(s) + " skill(s), "@ + text::decimal(r)
            + " role(s)."@,
    ] + replies::issue_lines(issues_about(issues, record.name@));
    assert(head.push(ENABLE_HINT@) =~= head + seq![ENABLE_HINT@]);
}

/// A list of marketplaces is told with what they hold, the issues, and how to
/// switch.
pub proof fn law_the_listing_is_told_whole(
    records: Seq<MarketplaceReport>,
    plugins: Seq<PluginReport>,
    issues: Seq<Seq<char>>,
)
    requires
        records.len() > 0,
    ensures
        marketplaces_said(records, plugins, issues) == text::joined(
            marketplaces_lines(records, plugins) + Seq::new(
                issues.len(),
                |i: int| "! "@ + issues[i],
            ) + seq![
                Seq::<char>::empty(),
                "toggle with /plugin enable|disable <marketplace/plugin[/skill]>."@,
            ],
            "\n"@,
        ),
{
    let all = marketplaces_lines(records, plugins) + replies::issue_lines(issues);
    assert(replies::issue_lines(issues) =~= Seq::new(issues.len(), |i: int| "! "@ + issues[i]));
    assert(all.push(Seq::empty()).push(TOGGLE_HINT@) =~= all + seq![
        Seq::<char>::empty(),
        TOGGLE_HINT@,
    ]);
}

} // verus!
