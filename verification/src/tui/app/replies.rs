//! What the commands of the session say: sessions, models, tokens, roles and
//! marketplaces as text.

use vstd::prelude::*;
use crate::text;
use crate::text::{
    concat2, concat3, contains, format_decimal, join_texts, same, skip_chars, starts_with, trim,
};
use crate::tui::app::overlay;
use crate::tui::app::overlay::{short_id, ModelProfile, SessionSummary};
use crate::tui::evals::push_row;

verus! {

// ---------------------------------------------------------------------------
// Sessions and state
// ---------------------------------------------------------------------------

/// The line of a session.
pub open spec fn session_line(record: SessionSummary, current: Seq<char>) -> Seq<char> {
    (if record.id@ == current {
        "▸"@
    } else {
        " "@
    }) + " "@ + overlay::short_text(record.id@) + " · "@ + record.updated_at@ + " · "@
        + text::decimal(record.goal_count as nat) + " goal(s) · "@ + (match record.last_goal {
        Some(goal) => goal@,
        None => "(no goal yet)"@,
    })
}

/// The lines of sessions.
pub open spec fn session_lines(records: Seq<SessionSummary>, current: Seq<char>) -> Seq<Seq<char>> {
    Seq::new(records.len(), |i: int| session_line(records[i], current))
}

/// What `/sessions` says.
pub open spec fn sessions_said(records: Seq<SessionSummary>, current: Seq<char>) -> Seq<char> {
    if records.len() == 0 {
        "no sessions recorded for this directory yet."@
    } else {
        text::joined(session_lines(records, current), "\n"@)
    }
}

/// What `/sessions` says; the session at hand is marked.
pub fn sessions_text(records: &Vec<SessionSummary>, current: &str) -> (r: String)
    ensures
        r@ == sessions_said(records@, current@),
{
    if records.len() == 0 {
        return "no sessions recorded for this directory yet.".to_string();
    }
    let ghost all = session_lines(records@, current@);
    let mut lines: Vec<String> = Vec::new();
    let mut i: usize = 0;
    assert(text::texts(lines@) =~= all.take(0));
    while i < records.len()
        invariant
            i <= records.len(),
            all == session_lines(records@, current@),
            text::texts(lines@) == all.take(i as int),
        decreases records.len() - i,
    {
        let record = &records[i];
        let mut line = if same(record.id.as_str(), current) {
            "▸".to_string()
        } else {
            " ".to_string()
        };
        line.append(" ");
        line.append(short_id(record.id.as_str()).as_str());
        line.append(" · ");
        line.append(record.updated_at.as_str());
        line.append(" · ");
        line.append(format_decimal(record.goal_count).as_str());
        line.append(" goal(s) · ");
        match &record.last_goal {
            Some(goal) => line.append(goal.as_str()),
            None => line.append("(no goal yet)"),
        }
        assert(line@ == all[i as int]);
        push_row(&mut lines, line);
        assert(all.take(i + 1) =~= all.take(i as int).push(all[i as int]));
        i = i + 1;
    }
    assert(all.take(i as int) =~= all);
    join_texts(&lines, "\n")
}

/// Whether a summary of the state tells that it could not be read.
pub open spec fn is_state_error(summary: Seq<char>) -> bool {
    "Could not read harness state at "@.is_prefix_of(summary) || "The file at "@.is_prefix_of(
        summary,
    )
}

/// Whether a summary of the state tells that it could not be read.
pub fn state_failed(summary: &str) -> (r: bool)
    ensures
        r == is_state_error(summary@),
{
    starts_with(summary, "Could not read harness state at ") || starts_with(
        summary,
        "The file at ",
    )
}

// ---------------------------------------------------------------------------
// Models
// ---------------------------------------------------------------------------

/// The first profile of an id.
pub open spec fn profile_of(profiles: Seq<ModelProfile>, id: Seq<char>) -> Option<ModelProfile>
    decreases profiles.len(),
{
    if profiles.len() == 0 {
        None
    } else if profiles[0].id@ == id {
        Some(profiles[0])
    } else {
        profile_of(profiles.skip(1), id)
    }
}

/// How the models in use are called.
pub open spec fn models_called(
    profiles: Option<Seq<ModelProfile>>,
    active: Seq<char>,
    active_tool: Seq<char>,
) -> Seq<char> {
    match profiles {
        None => "invalid profile config"@,
        Some(all) => {
            let base = match profile_of(all, active) {
                Some(profile) => overlay::called(profile.label, profile.id@) + " ("@
                    + profile.model@ + ")"@,
                None => if active.len() == 0 {
                    "no profile"@
                } else {
                    active
                },
            };
            let tool = if active_tool.len() > 0 && active_tool != active {
                profile_of(all, active_tool)
            } else {
                None
            };
            match tool {
                Some(profile) => base + " · tools: "@ + profile.model@,
                None => base,
            }
        },
    }
}

fn find_profile(profiles: &Vec<ModelProfile>, id: &str) -> (r: Option<usize>)
    ensures
        match r {
            Some(i) => i < profiles@.len() && profile_of(profiles@, id@) == Some(
                profiles@[i as int],
            ),
            None => profile_of(profiles@, id@) is None,
        },
{
    let mut i: usize = 0;
    assert(profiles@.skip(0) =~= profiles@);
    while i < profiles.len()
        invariant
            i <= profiles.len(),
            profile_of(profiles@.skip(i as int), id@) == profile_of(profiles@, id@),
        decreases profiles.len() - i,
    {
        assert(profiles@.skip(i as int)[0] == profiles@[i as int]);
        assert(profiles@.skip(i as int).skip(1) =~= profiles@.skip(i + 1));
        if same(profiles[i].id.as_str(), id) {
            return Some(i);
        }
        i = i + 1;
    }
    None
}

/// How the models in use are called. `profiles` is none where the settings do
/// not hold valid ones.
pub fn model_label(
    profiles: &Option<Vec<ModelProfile>>,
    active: &str,
    active_tool: &str,
) -> (r: String)
    ensures
        r@ == models_called(
            match *profiles {
                Some(v) => Some(v@),
                None => None,
            },
            active@,
            active_tool@,
        ),
{
    let all = match profiles {
        Some(v) => v,
        None => {
            return "invalid profile config".to_string();
        },
    };
    let mut label = match find_profile(all, active) {
        Some(i) => {
            let profile = &all[i];
            let mut base = match &profile.label {
                Some(l) => l.clone(),
                None => profile.id.clone(),
            };
            base.append(" (");
            base.append(profile.model.as_str());
            base.append(")");
            base
        },
        None => if active.unicode_len() == 0 {
            "no profile".to_string()
        } else {
            active.to_string()
        },
    };
    if active_tool.unicode_len() > 0 && !same(active_tool, active) {
        match find_profile(all, active_tool) {
            Some(i) => {
                label.append(" · tools: ");
                label.append(all[i].model.as_str());
            },
            None => {},
        }
    }
    label
}

/// What became of choosing a profile, a tool profile or a prompt.
pub open spec fn tool_choice_said(id: Seq<char>) -> Seq<char> {
    if id.len() == 0 {
        "tool-calling model cleared — every request uses the active model"@
    } else {
        "tool-calling model set to "@ + id
    }
}

/// Says which tool-calling model was chosen.
pub fn tool_choice_text(id: &str) -> (r: String)
    ensures
        r@ == tool_choice_said(id@),
{
    if id.unicode_len() == 0 {
        "tool-calling model cleared — every request uses the active model".to_string()
    } else {
        concat2("tool-calling model set to ", id)
    }
}

/// What the settings come to: where they lie, and where requests go.
pub struct ConfigReport {
    pub config_path: String,
    pub env_vars_path: String,
    pub model_label: String,
    pub endpoint: String,
    /// The model and the endpoint of tool calls, where they differ.
    pub tool_route: Option<(String, String)>,
    pub tool_route_warning: Option<String>,
    pub sessions_dir: String,
}

/// The closing line of `/config`.
pub const CONFIG_HINT: &'static str =
    "edit the config file directly, or use /model, /toolmodel, /prompt, and /env to switch profiles and tokens.";

/// The lines of `/config`.
pub open spec fn config_lines(c: ConfigReport) -> Seq<Seq<char>> {
    let head = seq![
        "config: "@ + c.config_path@,
        "env vars: "@ + c.env_vars_path@,
        "model profile: "@ + c.model_label@,
        "endpoint: "@ + c.endpoint@,
    ];
    let routed = match c.tool_route {
        Some(route) => head.push("tool-calling model: "@ + route.0@ + " ("@ + route.1@ + ")"@),
        None => head,
    };
    let warned = match c.tool_route_warning {
        Some(warning) => routed.push("tool-calling model: "@ + warning@),
        None => routed,
    };
    warned.push("sessions: "@ + c.sessions_dir@).push(CONFIG_HINT@)
}

/// What `/config` says.
pub fn config_text(c: &ConfigReport) -> (r: String)
    ensures
        r@ == text::joined(config_lines(*c), "\n"@),
{
    let mut lines: Vec<String> = Vec::new();
    lines.push(concat2("config: ", c.config_path.as_str()));
    lines.push(concat2("env vars: ", c.env_vars_path.as_str()));
    lines.push(concat2("model profile: ", c.model_label.as_str()));
    lines.push(concat2("endpoint: ", c.endpoint.as_str()));
    assert(text::texts(lines@) =~= seq![
        "config: "@ + c.config_path@,
        "env vars: "@ + c.env_vars_path@,
        "model profile: "@ + c.model_label@,
        "endpoint: "@ + c.endpoint@,
    ]);
    match &c.tool_route {
        Some(route) => {
            let mut line = concat3("tool-calling model: ", route.0.as_str(), " (");
            line.append(route.1.as_str());
            line.append(")");
            push_row(&mut lines, line);
        },
        None => {},
    }
    match &c.tool_route_warning {
        Some(warning) => {
            push_row(&mut lines, concat2("tool-calling model: ", warning.as_str()));
        },
        None => {},
    }
    push_row(&mut lines, concat2("sessions: ", c.sessions_dir.as_str()));
    push_row(&mut lines, CONFIG_HINT.to_string());
    join_texts(&lines, "\n")
}

/// What `/config` says where no route can be found.
pub fn config_failure_text(config_path: &str, error: &str) -> (r: String)
    ensures
        r@ == "config: "@ + config_path@ + "\nprofile error: "@ + error@,
{
    let mut said = concat3("config: ", config_path, "\nprofile error: ");
    said.append(error);
    said
}

// ---------------------------------------------------------------------------
// Tokens
// ---------------------------------------------------------------------------

/// Where a token comes from.
#[derive(Clone, Copy, Debug, PartialEq, Eq, Structural)]
pub enum EnvSource {
    File,
    Process,
    Missing,
}

/// A token that profiles refer to.
pub struct EnvReference {
    pub name: String,
    pub profile_ids: Vec<String>,
}

/// A token as it was found.
pub struct EnvFound {
    pub source: EnvSource,
    pub value: String,
}

/// The token that a profile refers to.
pub open spec fn env_name(profile: ModelProfile) -> Option<Seq<char>> {
    match profile.api_key_ref {
        Some(reference) => if "env:"@.is_prefix_of(reference@) {
            Some(text::trimmed(reference@.skip(4)))
        } else {
            None
        },
        None => None,
    }
}

/// The tokens that profiles refer to, each once, in the order they come up.
pub open spec fn env_names(profiles: Seq<ModelProfile>) -> Seq<Seq<char>>
    decreases profiles.len(),
{
    if profiles.len() == 0 {
        Seq::empty()
    } else {
        let before = env_names(profiles.drop_last());
        match env_name(profiles.last()) {
            Some(name) => if before.contains(name) {
                before
            } else {
                before.push(name)
            },
            None => before,
        }
    }
}

/// The profiles that refer to a token.
pub open spec fn ids_for(profiles: Seq<ModelProfile>, name: Seq<char>) -> Seq<Seq<char>>
    decreases profiles.len(),
{
    if profiles.len() == 0 {
        Seq::empty()
    } else {
        let before = ids_for(profiles.drop_last(), name);
        if env_name(profiles.last()) == Some(name) {
            before.push(profiles.last().id@)
        } else {
            before
        }
    }
}

/// What references hold.
pub open spec fn reference_models(v: Seq<EnvReference>) -> Seq<(Seq<char>, Seq<Seq<char>>)> {
    Seq::new(v.len(), |i: int| (v[i].name@, text::texts(v[i].profile_ids@)))
}

/// Every token that profiles refer to, with the profiles that do.
pub open spec fn references(profiles: Seq<ModelProfile>) -> Seq<(Seq<char>, Seq<Seq<char>>)> {
    Seq::new(
        env_names(profiles).len(),
        |i: int| (env_names(profiles)[i], ids_for(profiles, env_names(profiles)[i])),
    )
}

fn referenced_env(profile: &ModelProfile) -> (r: Option<String>)
    ensures
        text::opt_text(r) == env_name(*profile),
{
    match &profile.api_key_ref {
        Some(reference) => {
            proof {
                reveal_strlit("env:");
            }
            if starts_with(reference.as_str(), "env:") {
                assert(reference@.len() >= 4);
                let rest = skip_chars(reference.as_str(), 4);
                Some(trim(rest.as_str()))
            } else {
                None
            }
        },
        None => None,
    }
}

pub fn lists_name(names: &Vec<String>, name: &str) -> (r: bool)
    ensures
        r == text::texts(names@).contains(name@),
{
    let mut i: usize = 0;
    while i < names.len()
        invariant
            i <= names.len(),
            forall|j: int| 0 <= j < i ==> #[trigger] text::texts(names@)[j] != name@,
        decreases names.len() - i,
    {
        if same(names[i].as_str(), name) {
            assert(text::texts(names@)[i as int] == name@);
            return true;
        }
        assert(text::texts(names@)[i as int] != name@);
        i = i + 1;
    }
    false
}

fn collect_ids(profiles: &Vec<ModelProfile>, name: &str) -> (r: Vec<String>)
    ensures
        text::texts(r@) == ids_for(profiles@, name@),
{
    let mut out: Vec<String> = Vec::new();
    let mut i: usize = 0;
    assert(text::texts(out@) =~= ids_for(profiles@.take(0), name@));
    while i < profiles.len()
        invariant
            i <= profiles.len(),
            text::texts(out@) == ids_for(profiles@.take(i as int), name@),
        decreases profiles.len() - i,
    {
        assert(profiles@.take(i + 1).drop_last() =~= profiles@.take(i as int));
        match referenced_env(&profiles[i]) {
            Some(found) => {
                if same(found.as_str(), name) {
                    push_row(&mut out, profiles[i].id.clone());
                }
            },
            None => {},
        }
        i = i + 1;
    }
    assert(profiles@.take(i as int) =~= profiles@);
    out
}

/// Every token that profiles refer to, in the order they come up, with the
/// profiles that do.
pub fn env_references(profiles: &Vec<ModelProfile>) -> (r: Vec<EnvReference>)
    ensures
        reference_models(r@) == references(profiles@),
{
    let mut names: Vec<String> = Vec::new();
    let mut i: usize = 0;
    assert(text::texts(names@) =~= env_names(profiles@.take(0)));
    while i < profiles.len()
        invariant
            i <= profiles.len(),
            text::texts(names@) == env_names(profiles@.take(i as int)),
        decreases profiles.len() - i,
    {
        assert(profiles@.take(i + 1).drop_last() =~= profiles@.take(i as int));
        match referenced_env(&profiles[i]) {
            Some(found) => {
                if !lists_name(&names, found.as_str()) {
                    push_row(&mut names, found);
                }
            },
            None => {},
        }
        i = i + 1;
    }
    assert(profiles@.take(i as int) =~= profiles@);
    let ghost all = references(profiles@);
    let mut out: Vec<EnvReference> = Vec::new();
    let mut k: usize = 0;
    assert(reference_models(out@) =~= all.take(0));
    while k < names.len()
        invariant
            k <= names.len(),
            text::texts(names@) == env_names(profiles@),
            all == references(profiles@),
            reference_models(out@) == all.take(k as int),
        decreases names.len() - k,
    {
        let ids = collect_ids(profiles, names[k].as_str());
        assert(text::texts(names@)[k as int] == names@[k as int]@);
        let ghost before = out@;
        let reference = EnvReference { name: names[k].clone(), profile_ids: ids };
        out.push(reference);
        assert(reference_models(out@) =~= reference_models(before).push(all[k as int]));
        assert(all.take(k + 1) =~= all.take(k as int).push(all[k as int]));
        k = k + 1;
    }
    assert(all.take(k as int) =~= all);
    out
}

/// The last characters of a text.
pub open spec fn last_chars(s: Seq<char>, n: nat) -> Seq<char> {
    if s.len() <= n {
        s
    } else {
        s.skip(s.len() - n)
    }
}

/// What tells a token apart without telling the token: its length and its last
/// four characters.
pub open spec fn fingerprint(source: EnvSource, value: Seq<char>) -> Seq<char> {
    let v = text::trimmed(value);
    if source == EnvSource::Missing || v.len() == 0 {
        Seq::empty()
    } else {
        " ("@ + text::decimal(v.len()) + " chars, …"@ + last_chars(v, 4) + ")"@
    }
}

/// How a source is marked.
pub open spec fn source_mark(source: EnvSource) -> Seq<char> {
    match source {
        EnvSource::File => "● env.vars   "@,
        EnvSource::Process => "○ process env"@,
        EnvSource::Missing => "✗ missing    "@,
    }
}

/// The line of a token.
pub open spec fn env_line(
    reference: (Seq<char>, Seq<Seq<char>>),
    source: EnvSource,
    value: Seq<char>,
) -> Seq<char> {
    source_mark(source) + "  "@ + reference.0 + fingerprint(source, value) + " — "@
        + text::joined(reference.1, ", "@)
}

/// The closing line of `/env`.
pub const ENV_HINT: &'static str =
    "set one with /env KEY=value — it lands in the env file and applies to the next run.";

/// The lines of the tokens.
pub open spec fn env_lines(
    refs: Seq<(Seq<char>, Seq<Seq<char>>)>,
    found: Seq<EnvFound>,
) -> Seq<Seq<char>> {
    Seq::new(refs.len(), |i: int| env_line(refs[i], found[i].source, found[i].value@))
}

/// What `/env` says.
pub open spec fn env_said(
    path: Seq<char>,
    refs: Seq<(Seq<char>, Seq<Seq<char>>)>,
    found: Seq<EnvFound>,
) -> Seq<char> {
    let head = seq!["env file: "@ + path, Seq::empty()];
    let listed = if refs.len() == 0 {
        head.push("no model profiles reference env vars."@)
    } else {
        head + env_lines(refs, found)
    };
    text::joined(listed.push(Seq::empty()).push(ENV_HINT@), "\n"@)
}

fn fingerprint_text(source: EnvSource, value: &str) -> (r: String)
    ensures
        r@ == fingerprint(source, value@),
{
    let v = trim(value);
    let n: usize = v.as_str().unicode_len();
    if source == EnvSource::Missing || n == 0 {
        return String::new();
    }
    let mut out = concat3(" (", format_decimal(n as u64).as_str(), " chars, …");
    let tail = if n <= 4 {
        v.clone()
    } else {
        skip_chars(v.as_str(), n - 4)
    };
    out.append(tail.as_str());
    out.append(")");
    out
}

/// What `/env` says: every token that profiles refer to, where it comes from,
/// and what tells it apart.
pub fn env_text(path: &str, refs: &Vec<EnvReference>, found: &Vec<EnvFound>) -> (r: String)
    requires
        refs@.len() == found@.len(),
    ensures
        r@ == env_said(path@, reference_models(refs@), found@),
{
    let mut lines: Vec<String> = Vec::new();
    lines.push(concat2("env file: ", path));
    lines.push(String::new());
    let ghost head = seq!["env file: "@ + path@, Seq::<char>::empty()];
    let ghost models = reference_models(refs@);
    let ghost all = env_lines(models, found@);
    assert(text::texts(lines@) =~= head);
    if refs.len() == 0 {
        push_row(&mut lines, "no model profiles reference env vars.".to_string());
    }
    let ghost start = text::texts(lines@);
    let mut i: usize = 0;
    assert(text::texts(lines@) =~= start + all.take(0));
    while i < refs.len()
        invariant
            i <= refs.len(),
            refs@.len() == found@.len(),
            models == reference_models(refs@),
            all == env_lines(models, found@),
            text::texts(lines@) == start + all.take(i as int),
        decreases refs.len() - i,
    {
        let mark = match found[i].source {
            EnvSource::File => "● env.vars   ",
            EnvSource::Process => "○ process env",
            EnvSource::Missing => "✗ missing    ",
        };
        let mut line = concat3(mark, "  ", refs[i].name.as_str());
        line.append(fingerprint_text(found[i].source, found[i].value.as_str()).as_str());
        line.append(" — ");
        line.append(join_texts(&refs[i].profile_ids, ", ").as_str());
        assert(models[i as int] == (refs@[i as int].name@, text::texts(
            refs@[i as int].profile_ids@,
        )));
        assert(line@ == all[i as int]);
        push_row(&mut lines, line);
        assert(all.take(i + 1) =~= all.take(i as int).push(all[i as int]));
        assert(start + all.take(i + 1) =~= (start + all.take(i as int)).push(all[i as int]));
        i = i + 1;
    }
    assert(all.take(i as int) =~= all);
    assert(refs@.len() == 0 ==> start + all =~= start);
    push_row(&mut lines, String::new());
    push_row(&mut lines, ENV_HINT.to_string());
    join_texts(&lines, "\n")
}

/// What became of saving a token.
pub fn env_saved_text(key: &str, path: &str) -> (r: String)
    ensures
        r@ == key@ + " saved to "@ + path@,
{
    concat3(key, " saved to ", path)
}

// ---------------------------------------------------------------------------
// Roles
// ---------------------------------------------------------------------------

/// A role as it was resolved.
pub struct RoleReport {
    pub name: String,
    pub description: Option<String>,
    /// The tools it may call; none where it may call all.
    pub tool_names: Option<Vec<String>>,
    pub model: Option<String>,
    /// Its loop settings, as JSON.
    pub loop_json: Option<String>,
    pub verified_by: Option<String>,
}

/// A text behind a dash, where there is one.
pub open spec fn dashed(s: Option<String>) -> Seq<char> {
    match s {
        Some(t) => " — "@ + t@,
        None => Seq::empty(),
    }
}

pub fn dashed_text(s: &Option<String>) -> (r: String)
    ensures
        r@ == dashed(*s),
{
    match s {
        Some(t) => concat2(" — ", t.as_str()),
        None => String::new(),
    }
}

/// What a role may call.
pub open spec fn role_tools(names: Option<Vec<String>>) -> Seq<char> {
    match names {
        Some(v) => if v@.len() == 0 {
            "tools: (harness ops only)"@
        } else {
            "tools: "@ + text::joined(text::texts(v@), ", "@)
        },
        None => "tools: all"@,
    }
}

/// A part where there is one.
pub open spec fn with_part(
    parts: Seq<Seq<char>>,
    label: Seq<char>,
    part: Option<String>,
) -> Seq<Seq<char>> {
    match part {
        Some(p) => parts.push(label + p@),
        None => parts,
    }
}

/// The parts of a role's second line.
pub open spec fn role_parts(role: RoleReport) -> Seq<Seq<char>> {
    with_part(
        with_part(
            with_part(seq![role_tools(role.tool_names)], "model: "@, role.model),
            "loop: "@,
            role.loop_json,
        ),
        "verifiedBy: "@,
        role.verified_by,
    )
}

/// The lines of a role.
pub open spec fn role_lines(role: RoleReport) -> Seq<char> {
    role.name@ + dashed(role.description) + "\n    "@ + text::joined(role_parts(role), " · "@)
}

/// A binding, or that there is none.
pub open spec fn bound(role: Option<String>) -> Seq<char> {
    match role {
        Some(r) => r@,
        None => "(default)"@,
    }
}

/// Issues, each behind a mark.
pub open spec fn issue_lines(issues: Seq<Seq<char>>) -> Seq<Seq<char>> {
    Seq::new(issues.len(), |i: int| "! "@ + issues[i])
}

/// What `/roles` says where nothing is defined.
pub const NO_ROLES: &'static str =
    "no roles defined. Define them in .drip/roles.json ({\"roles\": [...], \"bindings\": {...}}), the Harness Role Profiles config setting, or an enabled plugin's agents/ directory.";

/// What `/roles` says.
pub open spec fn roles_said(
    roles: Seq<RoleReport>,
    planning: Option<String>,
    task: Option<String>,
    issues: Seq<Seq<char>>,
) -> Seq<char> {
    if roles.len() == 0 && issues.len() == 0 {
        NO_ROLES@
    } else {
        text::joined(
            Seq::new(roles.len(), |i: int| role_lines(roles[i])).push(
                "bindings: planning="@ + bound(planning) + " task="@ + bound(task)
                    + " — tasks may carry their own role from plan_tasks"@,
            ) + issue_lines(issues),
            "\n"@,
        )
    }
}

fn push_part(parts: &mut Vec<String>, label: &str, part: &Option<String>)
    ensures
        text::texts(final(parts)@) == with_part(text::texts(old(parts)@), label@, *part),
{
    match part {
        Some(p) => {
            push_row(parts, concat2(label, p.as_str()));
        },
        None => {},
    }
}

fn role_text(role: &RoleReport) -> (r: String)
    ensures
        r@ == role_lines(*role),
{
    let tools = match &role.tool_names {
        Some(v) => if v.len() == 0 {
            "tools: (harness ops only)".to_string()
        } else {
            concat2("tools: ", join_texts(v, ", ").as_str())
        },
        None => "tools: all".to_string(),
    };
    let mut parts: Vec<String> = Vec::new();
    parts.push(tools);
    assert(text::texts(parts@) =~= seq![role_tools(role.tool_names)]);
    push_part(&mut parts, "model: ", &role.model);
    push_part(&mut parts, "loop: ", &role.loop_json);
    push_part(&mut parts, "verifiedBy: ", &role.verified_by);
    let mut line = concat3(
        role.name.as_str(),
        dashed_text(&role.description).as_str(),
        "\n    ",
    );
    line.append(join_texts(&parts, " · ").as_str());
    line
}

pub fn push_issues(lines: &mut Vec<String>, issues: &Vec<String>)
    ensures
        text::texts(final(lines)@) == text::texts(old(lines)@) + issue_lines(
            text::texts(issues@),
        ),
{
    let ghost start = text::texts(lines@);
    let ghost all = issue_lines(text::texts(issues@));
    let mut i: usize = 0;
    assert(start =~= start + all.take(0));
    while i < issues.len()
        invariant
            i <= issues.len(),
            all == issue_lines(text::texts(issues@)),
            text::texts(lines@) == start + all.take(i as int),
        decreases issues.len() - i,
    {
        push_row(lines, concat2("! ", issues[i].as_str()));
        assert(all.take(i + 1) =~= all.take(i as int).push(all[i as int]));
        assert(start + all.take(i + 1) =~= (start + all.take(i as int)).push(all[i as int]));
        i = i + 1;
    }
    assert(all.take(i as int) =~= all);
}

/// What `/roles` says: each role, what it may call, and what is bound to it.
pub fn roles_text(
    roles: &Vec<RoleReport>,
    planning: &Option<String>,
    task: &Option<String>,
    issues: &Vec<String>,
) -> (r: String)
    ensures
        r@ == roles_said(roles@, *planning, *task, text::texts(issues@)),
{
    if roles.len() == 0 && issues.len() == 0 {
        return NO_ROLES.to_string();
    }
    let ghost all = Seq::new(roles@.len(), |i: int| role_lines(roles@[i]));
    let mut lines: Vec<String> = Vec::new();
    let mut i: usize = 0;
    assert(text::texts(lines@) =~= all.take(0));
    while i < roles.len()
        invariant
            i <= roles.len(),
            all == Seq::new(roles@.len(), |i: int| role_lines(roles@[i])),
            text::texts(lines@) == all.take(i as int),
        decreases roles.len() - i,
    {
        push_row(&mut lines, role_text(&roles[i]));
        assert(all.take(i + 1) =~= all.take(i as int).push(all[i as int]));
        i = i + 1;
    }
    assert(all.take(i as int) =~= all);
    let mut bindings = match planning {
        Some(p) => concat2("bindings: planning=", p.as_str()),
        None => concat2("bindings: planning=", "(default)"),
    };
    bindings.append(" task=");
    match task {
        Some(t) => bindings.append(t.as_str()),
        None => bindings.append("(default)"),
    }
    bindings.append(" — tasks may carry their own role from plan_tasks");
    push_row(&mut lines, bindings);
    push_issues(&mut lines, issues);
    join_texts(&lines, "\n")
}

// ---------------------------------------------------------------------------
// Laws
// ---------------------------------------------------------------------------

/// A listing tells nothing of a token but its length and its last four
/// characters: tokens that agree in these read the same.
pub proof fn law_a_listing_keeps_the_token(source: EnvSource, a: Seq<char>, b: Seq<char>)
    requires
        text::trimmed(a).len() == text::trimmed(b).len(),
        last_chars(text::trimmed(a), 4) == last_chars(text::trimmed(b), 4),
    ensures
        fingerprint(source, a) == fingerprint(source, b),
{
}

/// Every token is listed once.
pub proof fn law_every_token_is_listed_once(profiles: Seq<ModelProfile>, i: int, j: int)
    requires
        0 <= i < j < env_names(profiles).len(),
    ensures
        env_names(profiles)[i] != env_names(profiles)[j],
    decreases profiles.len(),
{
    let before = env_names(profiles.drop_last());
    if j < before.len() {
        law_every_token_is_listed_once(profiles.drop_last(), i, j);
    } else {
        assert(before.contains(before[i]));
    }
}

/// The line of a session: a mark where it is the current one, its short id,
/// when it was updated, how many goals it had and the last of them. Every
/// session has its line, in order; without any it is said that there is none.
pub proof fn law_every_session_has_its_line(
    records: Seq<SessionSummary>,
    current: Seq<char>,
    i: int,
)
    requires
        0 <= i < records.len(),
    ensures
        ({
            let r = records[i];
            let mark = if r.id@ == current {
                "▸"@
            } else {
                " "@
            };
            let goal = if r.last_goal is Some {
                r.last_goal->0@
            } else {
                "(no goal yet)"@
            };
            &&& session_lines(records, current).len() == records.len()
            &&& session_lines(records, current)[i] == mark + " "@ + text::first_chars(r.id@, 8)
                + " · "@ + r.updated_at@ + " · "@ + text::decimal(r.goal_count as nat)
                + " goal(s) · "@ + goal
        }),
        sessions_said(records, current) == text::joined(session_lines(records, current), "\n"@),
        sessions_said(Seq::empty(), current) == "no sessions recorded for this directory yet."@,
{
}

/// A summary tells of a state that could not be read exactly where it begins
/// with one of the two sentences that say so.
pub proof fn law_a_state_that_cannot_be_read_is_an_error(s: Seq<char>)
    ensures
        is_state_error("Could not read harness state at "@ + s),
        is_state_error("The file at "@ + s),
        is_state_error(s) ==> "Could not read harness state at "@.is_prefix_of(s)
            || "The file at "@.is_prefix_of(s),
{
    let a = "Could not read harness state at "@ + s;
    let b = "The file at "@ + s;
    assert("Could not read harness state at "@
        =~= a.take("Could not read harness state at "@.len() as int));
    assert("The file at "@ =~= b.take("The file at "@.len() as int));
}

/// How the model is called: by the first profile of the active id, with its
/// model; by the id where no profile has it; and with the tool model behind it
/// where that is another one.
pub proof fn law_the_model_is_called_by_its_profile(
    profiles: Seq<ModelProfile>,
    i: int,
    active: Seq<char>,
    tool: Seq<char>,
)
    requires
        0 <= i < profiles.len(),
        profiles[i].id@ == active,
        forall|j: int| 0 <= j < i ==> (#[trigger] profiles[j]).id@ != active,
    ensures
        ({
            let p = profiles[i];
            let name = if p.label is Some {
                p.label->0@
            } else {
                p.id@
            };
            let base = name + " ("@ + p.model@ + ")"@;
            &&& tool.len() == 0 || tool == active ==> models_called(Some(profiles), active, tool)
                == base
            &&& tool.len() > 0 && tool != active && profile_of(profiles, tool) is Some
                ==> models_called(Some(profiles), active, tool) == base + " · tools: "@
                + profile_of(profiles, tool)->0.model@
            &&& tool.len() > 0 && tool != active && profile_of(profiles, tool) is None
                ==> models_called(Some(profiles), active, tool) == base
        }),
        models_called(None, active, tool) == "invalid profile config"@,
        models_called(Some(Seq::empty()), Seq::empty(), Seq::empty()) == "no profile"@,
        active.len() > 0 ==> models_called(Some(Seq::empty()), active, Seq::empty()) == active,
{
    lemma_first_profile(profiles, i, active);
}

proof fn lemma_first_profile(profiles: Seq<ModelProfile>, i: int, id: Seq<char>)
    requires
        0 <= i < profiles.len(),
        profiles[i].id@ == id,
        forall|j: int| 0 <= j < i ==> (#[trigger] profiles[j]).id@ != id,
    ensures
        profile_of(profiles, id) == Some(profiles[i]),
    decreases i,
{
    if i > 0 {
        assert(profiles[0].id@ != id);
        let rest = profiles.skip(1);
        assert forall|j: int| 0 <= j < i - 1 implies (#[trigger] rest[j]).id@ != id by {
            assert(rest[j] == profiles[j + 1]);
        }
        lemma_first_profile(rest, i - 1, id);
    }
}

/// Choosing a tool model names it; choosing none says that the active model is
/// used.
pub proof fn law_a_tool_model_is_named(id: Seq<char>)
    ensures
        id.len() > 0 ==> tool_choice_said(id) == "tool-calling model set to "@ + id,
        id.len() == 0 ==> tool_choice_said(id)
            == "tool-calling model cleared — every request uses the active model"@,
{
}

/// The configuration is told line by line: where it is, where the tokens are,
/// the model, its endpoint, the tool model where there is one, and the
/// sessions.
pub proof fn law_the_configuration_is_told(c: ConfigReport)
    ensures
        ({
            let lines = config_lines(c);
            let r: int = if c.tool_route is Some {
                1
            } else {
                0
            };
            let w: int = if c.tool_route_warning is Some {
                1
            } else {
                0
            };
            &&& lines.len() == 6 + r + w
            &&& lines[0] == "config: "@ + c.config_path@
            &&& lines[1] == "env vars: "@ + c.env_vars_path@
            &&& lines[2] == "model profile: "@ + c.model_label@
            &&& lines[3] == "endpoint: "@ + c.endpoint@
            &&& c.tool_route matches Some(route) ==> lines[4] == "tool-calling model: "@ + route.0@
                + " ("@ + route.1@ + ")"@
            &&& c.tool_route_warning matches Some(warning) ==> lines[4 + r]
                == "tool-calling model: "@ + warning@
            &&& lines[4 + r + w] == "sessions: "@ + c.sessions_dir@
        }),
{
}

/// A profile refers to a token where its reference begins with `env:`, by what
/// stands behind, without white space around it. Every token that is referred
/// to is listed, with every profile that refers to it.
pub proof fn law_every_token_is_listed_with_its_profiles(
    profiles: Seq<ModelProfile>,
    profile: ModelProfile,
    name: Seq<char>,
)
    ensures
        profile.api_key_ref is None ==> env_name(profile) is None,
        profile.api_key_ref is Some && "env:"@.is_prefix_of(profile.api_key_ref->0@) ==> env_name(
            profile,
        ) == Some(text::trimmed(profile.api_key_ref->0@.skip(4))),
        profile.api_key_ref is Some && !"env:"@.is_prefix_of(profile.api_key_ref->0@) ==> env_name(
            profile,
        ) is None,
        env_name(profile) matches Some(n) ==> {
            &&& env_names(profiles).contains(n) ==> env_names(profiles.push(profile)) == env_names(
                profiles,
            )
            &&& !env_names(profiles).contains(n) ==> env_names(profiles.push(profile))
                == env_names(profiles).push(n)
        },
        env_name(profile) is None ==> env_names(profiles.push(profile)) == env_names(profiles),
        env_name(profile) == Some(name) ==> ids_for(profiles.push(profile), name) == ids_for(
            profiles,
            name,
        ).push(profile.id@),
        env_name(profile) != Some(name) ==> ids_for(profiles.push(profile), name) == ids_for(
            profiles,
            name,
        ),
        ids_for(Seq::empty(), name) == Seq::<Seq<char>>::empty(),
        env_names(Seq::empty()) == Seq::<Seq<char>>::empty(),
{
    assert(profiles.push(profile).drop_last() =~= profiles);
}

/// The line of a token: where it was found, its name, its length and its last
/// four characters where it has a value, and the profiles that refer to it.
pub proof fn law_a_token_is_told_by_its_end(
    name: Seq<char>,
    ids: Seq<Seq<char>>,
    head: Seq<char>,
    end: Seq<char>,
)
    requires
        end.len() == 4,
        (head + end).len() > 0,
        !text::is_space((head + end)[0]),
        !text::is_space(end.last()),
    ensures
        ({
            let value = head + end;
            let shown = " ("@ + text::decimal(value.len()) + " chars, …"@ + end + ")"@;
            &&& env_line((name, ids), EnvSource::File, value) == "● env.vars   "@ + "  "@ + name
                + shown + " — "@ + text::joined(ids, ", "@)
            &&& env_line((name, ids), EnvSource::Process, value) == "○ process env"@ + "  "@ + name
                + shown + " — "@ + text::joined(ids, ", "@)
            &&& env_line((name, ids), EnvSource::Missing, value) == "✗ missing    "@ + "  "@ + name
                + Seq::<char>::empty() + " — "@ + text::joined(ids, ", "@)
        }),
{
    let value = head + end;
    assert(value.last() == end.last());
    assert(value =~= Seq::<char>::empty() + value + Seq::<char>::empty());
    text::law_trimming_gives_the_middle(Seq::empty(), value, Seq::empty());
    assert(last_chars(value, 4) =~= end);
}

/// A role is told with what it may call, and with its model, its loop and its
/// verifier where it has them; every role and every issue has its line.
pub proof fn law_every_role_is_told(
    roles: Seq<RoleReport>,
    planning: Option<String>,
    task: Option<String>,
    issues: Seq<Seq<char>>,
    i: int,
)
    requires
        0 <= i < roles.len(),
    ensures
        ({
            let lines = Seq::new(roles.len(), |k: int| role_lines(roles[k])).push(
                "bindings: planning="@ + bound(planning) + " task="@ + bound(task)
                    + " — tasks may carry their own role from plan_tasks"@,
            ) + Seq::new(issues.len(), |k: int| "! "@ + issues[k]);
            roles_said(roles, planning, task, issues) == text::joined(lines, "\n"@)
        }),
        ({
            let role = roles[i];
            let described = if role.description is Some {
                " — "@ + role.description->0@
            } else {
                Seq::empty()
            };
            &&& role_lines(role) == role.name@ + described + "\n    "@ + text::joined(
                role_parts(role),
                " · "@,
            )
            &&& role.model is Some ==> role_parts(role).contains("model: "@ + role.model->0@)
            &&& role.verified_by is Some ==> role_parts(role).last() == "verifiedBy: "@
                + role.verified_by->0@
            &&& role_parts(role)[0] == role_tools(role.tool_names)
        }),
        role_tools(None) == "tools: all"@,
        planning is None ==> bound(planning) == "(default)"@,
        planning matches Some(p) ==> bound(planning) == p@,
{
    let role = roles[i];
    if role.model is Some {
        assert(role_parts(role)[1] == "model: "@ + role.model->0@);
    }
}

/// What `/env` says: where the tokens are, then a line for each token that is
/// referred to, or that none is.
pub proof fn law_every_token_has_its_line(
    path: Seq<char>,
    refs: Seq<(Seq<char>, Seq<Seq<char>>)>,
    found: Seq<EnvFound>,
    i: int,
)
    requires
        0 <= i < refs.len(),
    ensures
        env_lines(refs, found).len() == refs.len(),
        env_lines(refs, found)[i] == env_line(refs[i], found[i].source, found[i].value@),
        env_said(path, refs, found) == text::joined(
            seq!["env file: "@ + path, Seq::<char>::empty()] + env_lines(refs, found) + seq![
                Seq::<char>::empty(),
                "set one with /env KEY=value — it lands in the env file and applies to the next run."@,
            ],
            "\n"@,
        ),
{
    let listed = seq!["env file: "@ + path, Seq::<char>::empty()] + env_lines(refs, found);
    assert(listed.push(Seq::empty()).push(ENV_HINT@) =~= listed + seq![
        Seq::<char>::empty(),
        ENV_HINT@,
    ]);
}

/// The references of profiles: every token, in the order in which it first
/// comes up, with the profiles that refer to it.
pub proof fn law_references_pair_tokens_with_profiles(profiles: Seq<ModelProfile>, i: int)
    requires
        0 <= i < env_names(profiles).len(),
    ensures
        references(profiles).len() == env_names(profiles).len(),
        references(profiles)[i] == (
            env_names(profiles)[i],
            ids_for(profiles, env_names(profiles)[i]),
        ),
{
}

} // verus!
