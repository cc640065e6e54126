//! The switch on MCP servers for a run: which servers a run may use beyond those
//! that its roles name.

use vstd::prelude::*;
use crate::text;
use crate::text::{
    chars_of, concat3, format_decimal, join_texts, same, split_words, to_lowercase, trim,
};
use crate::transcript::clone_texts;
use crate::tui::compact::lists;

verus! {

/// A configured server: its name and the command that starts it.
#[derive(Debug, PartialEq)]
pub struct McpServer {
    pub name: String,
    pub command: String,
    pub args: Vec<String>,
}

/// The names of servers.
pub open spec fn server_names(v: Seq<McpServer>) -> Seq<Seq<char>> {
    Seq::new(v.len(), |i: int| v[i].name@)
}

fn knows(configured: &Vec<McpServer>, name: &str) -> (r: bool)
    ensures
        r == server_names(configured@).contains(name@),
{
    let ghost all = server_names(configured@);
    let mut i: usize = 0;
    while i < configured.len()
        invariant
            i <= configured.len(),
            all == server_names(configured@),
            forall|k: int| 0 <= k < i ==> all[k] != name@,
        decreases configured.len() - i,
    {
        if same(configured[i].name.as_str(), name) {
            assert(all[i as int] == name@);
            return true;
        }
        i = i + 1;
    }
    false
}

/// The switch: none leaves the decision to the roles, a list is the set for
/// loops whose role names no server, and an empty list is off.
pub open spec fn gate_model(gate: Option<Vec<String>>) -> Option<Seq<Seq<char>>> {
    match gate {
        Some(names) => Some(text::texts(names@)),
        None => None,
    }
}

/// Whether the switch is closed.
pub open spec fn is_off(gate: Option<Seq<Seq<char>>>) -> bool {
    match gate {
        Some(names) => names.len() == 0,
        None => false,
    }
}

/// Whether the switch is closed: no server is spawned, whatever the roles say.
pub fn mcp_gate_off(gate: &Option<Vec<String>>) -> (r: bool)
    ensures
        r == is_off(gate_model(*gate)),
{
    match gate {
        Some(names) => names.len() == 0,
        None => false,
    }
}

// ---------------------------------------------------------------------------
// What a run spawns
// ---------------------------------------------------------------------------

/// The names of `base`, then those of `more` that are not among them yet.
pub open spec fn merged(base: Seq<Seq<char>>, more: Seq<Seq<char>>) -> Seq<Seq<char>>
    decreases more.len(),
{
    if more.len() == 0 {
        base
    } else {
        let before = merged(base, more.drop_last());
        if before.contains(more.last()) {
            before
        } else {
            before.push(more.last())
        }
    }
}

/// The servers that a run spawns: those that the roles name and those of the
/// switch; none where the switch is off.
pub open spec fn spawned(
    referenced: Seq<Seq<char>>,
    gate: Option<Seq<Seq<char>>>,
) -> Seq<Seq<char>> {
    match gate {
        None => referenced,
        Some(names) => if names.len() == 0 {
            Seq::empty()
        } else {
            merged(referenced, names)
        },
    }
}

/// The servers that a run spawns.
pub fn mcp_spawn_names(referenced: Vec<String>, gate: &Option<Vec<String>>) -> (r: Vec<String>)
    ensures
        text::texts(r@) == spawned(text::texts(referenced@), gate_model(*gate)),
{
    let gate_names = match gate {
        None => {
            return referenced;
        },
        Some(names) => names,
    };
    let mut out = referenced;
    let ghost base = text::texts(out@);
    if gate_names.len() == 0 {
        let none: Vec<String> = Vec::new();
        assert(text::texts(none@) =~= Seq::empty());
        return none;
    }
    let ghost more = text::texts(gate_names@);
    let mut i: usize = 0;
    assert(more.take(0) =~= Seq::empty());
    while i < gate_names.len()
        invariant
            i <= gate_names.len(),
            more == text::texts(gate_names@),
            text::texts(out@) == merged(base, more.take(i as int)),
        decreases gate_names.len() - i,
    {
        broadcast use text::lemma_texts_push;

        assert(more.take(i + 1).drop_last() =~= more.take(i as int));
        if !lists(&out, gate_names[i].as_str()) {
            out.push(gate_names[i].clone());
        }
        i = i + 1;
    }
    assert(more.take(i as int) =~= more);
    out
}

/// How the start of a server ended.
#[derive(Debug, PartialEq)]
pub enum McpSpawn {
    Started,
    /// It is not configured.
    Missing,
    Failed(String),
}

/// What is said of a server that is not available, where it is not.
pub open spec fn spawn_warning(name: Seq<char>, outcome: McpSpawn) -> Option<Seq<char>> {
    match outcome {
        McpSpawn::Started => None,
        McpSpawn::Missing => Some(
            "mcp: server \""@ + name
                + "\": not in mcpServers config \u{2014} its tools are unavailable"@,
        ),
        McpSpawn::Failed(error) => Some(
            "mcp: server \""@ + name + "\": "@ + error@
                + " \u{2014} its tools are unavailable"@,
        ),
    }
}

/// One warning for each server that could not be started.
pub open spec fn spawn_warnings(names: Seq<Seq<char>>, outcomes: Seq<McpSpawn>) -> Seq<Seq<char>>
    decreases names.len(),
{
    if names.len() == 0 {
        Seq::empty()
    } else {
        let before = spawn_warnings(names.drop_last(), outcomes.drop_last());
        match spawn_warning(names.last(), outcomes.last()) {
            Some(warning) => before.push(warning),
            None => before,
        }
    }
}

/// The warnings of a run's servers. A server that could not be started is
/// never fatal: it only costs its tools.
pub fn mcp_spawn_report(names: &Vec<String>, outcomes: &Vec<McpSpawn>) -> (r: Vec<String>)
    requires
        names@.len() == outcomes@.len(),
    ensures
        text::texts(r@) == spawn_warnings(text::texts(names@), outcomes@),
{
    let ghost all = text::texts(names@);
    let mut out: Vec<String> = Vec::new();
    let mut i: usize = 0;
    assert(text::texts(out@) =~= spawn_warnings(all.take(0), outcomes@.take(0)));
    while i < names.len()
        invariant
            i <= names.len(),
            names@.len() == outcomes@.len(),
            all == text::texts(names@),
            text::texts(out@) == spawn_warnings(all.take(i as int), outcomes@.take(i as int)),
        decreases names.len() - i,
    {
        broadcast use text::lemma_texts_push;

        assert(all.take(i + 1).drop_last() =~= all.take(i as int));
        assert(outcomes@.take(i + 1).drop_last() =~= outcomes@.take(i as int));
        match &outcomes[i] {
            McpSpawn::Started => {},
            McpSpawn::Missing => {
                out.push(
                    concat3(
                        "mcp: server \"",
                        names[i].as_str(),
                        "\": not in mcpServers config \u{2014} its tools are unavailable",
                    ),
                );
            },
            McpSpawn::Failed(error) => {
                let mut line = concat3("mcp: server \"", names[i].as_str(), "\": ");
                line.append(error.as_str());
                line.append(" \u{2014} its tools are unavailable");
                out.push(line);
            },
        }
        i = i + 1;
    }
    assert(all.take(i as int) =~= all);
    assert(outcomes@.take(i as int) =~= outcomes@);
    out
}

// ---------------------------------------------------------------------------
// Toggling
// ---------------------------------------------------------------------------

/// Commas read as spaces.
pub open spec fn commas_as_spaces(s: Seq<char>) -> Seq<char> {
    Seq::new(
        s.len(),
        |i: int|
            if s[i] == ',' {
                ' '
            } else {
                s[i]
            },
    )
}

/// The names that an argument lists, between commas or white space.
pub open spec fn named(args: Seq<char>) -> Seq<Seq<char>> {
    text::words(commas_as_spaces(args))
}

fn split_names(args: &str) -> (r: Vec<String>)
    ensures
        text::texts(r@) == named(args@),
{
    let x = chars_of(args);
    let mut spaced = String::new();
    let mut i: usize = 0;
    assert(spaced@ =~= commas_as_spaces(x@).take(0));
    while i < x.len()
        invariant
            i <= x.len(),
            spaced@ == commas_as_spaces(x@).take(i as int),
        decreases x.len() - i,
    {
        if x[i] == ',' {
            spaced.push(' ');
        } else {
            spaced.push(x[i]);
        }
        assert(commas_as_spaces(x@).take(i + 1) =~= commas_as_spaces(x@).take(i as int).push(
            commas_as_spaces(x@)[i as int],
        ));
        i = i + 1;
    }
    assert(commas_as_spaces(x@).take(i as int) =~= commas_as_spaces(x@));
    split_words(spaced.as_str())
}

/// A name switched: taken out where it is listed, else added at the end.
pub open spec fn switched(enabled: Seq<Seq<char>>, name: Seq<char>) -> Seq<Seq<char>> {
    if enabled.contains(name) {
        enabled.remove(enabled.index_of_first(name)->0)
    } else {
        enabled.push(name)
    }
}

/// The servers that are on after the configured ones of `names` were switched,
/// one after the other.
pub open spec fn all_switched(
    enabled: Seq<Seq<char>>,
    names: Seq<Seq<char>>,
    configured: Seq<Seq<char>>,
) -> Seq<Seq<char>>
    decreases names.len(),
{
    if names.len() == 0 {
        enabled
    } else {
        let before = all_switched(enabled, names.drop_last(), configured);
        if configured.contains(names.last()) {
            switched(before, names.last())
        } else {
            before
        }
    }
}

/// The names that are not configured, each once.
pub open spec fn unknown_names(
    names: Seq<Seq<char>>,
    configured: Seq<Seq<char>>,
) -> Seq<Seq<char>>
    decreases names.len(),
{
    if names.len() == 0 {
        Seq::empty()
    } else {
        let before = unknown_names(names.drop_last(), configured);
        if configured.contains(names.last()) || before.contains(names.last()) {
            before
        } else {
            before.push(names.last())
        }
    }
}

fn switch_name(enabled: &mut Vec<String>, name: &str)
    ensures
        text::texts(final(enabled)@) == switched(text::texts(old(enabled)@), name@),
{
    let ghost before = text::texts(enabled@);
    let mut i: usize = 0;
    while i < enabled.len()
        invariant
            i <= enabled.len(),
            enabled@ == old(enabled)@,
            before == text::texts(enabled@),
            forall|k: int| 0 <= k < i ==> before[k] != name@,
        decreases enabled.len() - i,
    {
        if same(enabled[i].as_str(), name) {
            assert(before[i as int] == name@);
            assert(before.contains(name@));
            proof {
                before.index_of_first_ensures(name@);
            }
            let _ = enabled.remove(i);
            assert(text::texts(enabled@) =~= before.remove(i as int));
            return ;
        }
        i = i + 1;
    }
    assert(!before.contains(name@));
    broadcast use text::lemma_texts_push;

    enabled.push(name.to_string());
}

/// What a listing of the servers was asked to do.
#[derive(Debug, PartialEq)]
pub enum McpRequest {
    /// Show the servers.
    Status,
    /// Everything off.
    Off,
    /// The decision back to the roles.
    Roles,
    /// Switch the servers that the argument names.
    Toggle,
}

/// What a trimmed argument in lower case asks for.
pub open spec fn request_of(argument: Seq<char>) -> McpRequest {
    if argument.len() == 0 {
        McpRequest::Status
    } else if argument == "off"@ || argument == "none"@ {
        McpRequest::Off
    } else if argument == "roles"@ || argument == "auto"@ {
        McpRequest::Roles
    } else {
        McpRequest::Toggle
    }
}

/// What a trimmed argument in lower case asks for.
pub fn mcp_request(argument: &str) -> (r: McpRequest)
    ensures
        r == request_of(argument@),
{
    if argument.unicode_len() == 0 {
        McpRequest::Status
    } else if same(argument, "off") || same(argument, "none") {
        McpRequest::Off
    } else if same(argument, "roles") || same(argument, "auto") {
        McpRequest::Roles
    } else {
        McpRequest::Toggle
    }
}

/// How a `/mcp` command ended: the new gate, and what is said.
#[derive(Debug, PartialEq)]
pub struct McpReply {
    pub gate: Option<Vec<String>>,
    pub said: String,
    pub is_error: bool,
}

/// What is said when everything is off.
pub open spec fn off_text() -> Seq<char> {
    "mcp: every server is off for this run (like --no-mcp). /mcp roles hands the decision back to the roles."@
}

/// What is said when the decision goes back to the roles.
pub open spec fn roles_text() -> Seq<char> {
    "mcp: run gate cleared \u{2014} each loop sees a server exactly when its role names it in mcpServers."@
}

/// What is said when servers were switched on.
pub open spec fn on_text(names: Seq<Seq<char>>) -> Seq<char> {
    "mcp: "@ + text::joined(names, ", "@)
        + " on for this run (like --mcp) \u{2014} the next goal spawns them."@
}

/// What is said of names that are not configured.
pub open spec fn unknown_text(names: Seq<Seq<char>>) -> Seq<char> {
    "mcp: no configured server named "@ + text::joined(names, ", "@)
        + " \u{2014} /mcp lists the configured servers"@
}

/// The servers that are on under a gate.
pub open spec fn gate_names(gate: Option<Seq<Seq<char>>>) -> Seq<Seq<char>> {
    match gate {
        Some(names) => names,
        None => Seq::empty(),
    }
}

/// The switch, the words and whether they are an error, for a request.
pub open spec fn mcp_outcome(
    request: McpRequest,
    args: Seq<char>,
    gate: Option<Seq<Seq<char>>>,
    configured: Seq<McpServer>,
) -> (Option<Seq<Seq<char>>>, Seq<char>, bool) {
    match request {
        McpRequest::Status => (gate, status_text(gate, configured), false),
        McpRequest::Off => (Some(Seq::empty()), off_text(), false),
        McpRequest::Roles => (None, roles_text(), false),
        McpRequest::Toggle => {
            let known = server_names(configured);
            let unknown = unknown_names(named(args), known);
            let enabled = all_switched(gate_names(gate), named(args), known);
            if unknown.len() > 0 {
                (gate, unknown_text(unknown), true)
            } else if enabled.len() == 0 {
                (Some(enabled), off_text(), false)
            } else {
                (Some(enabled), on_text(enabled), false)
            }
        },
    }
}

// ---------------------------------------------------------------------------
// The listing
// ---------------------------------------------------------------------------

/// Whether a run may use a server under a gate.
pub open spec fn server_status(name: Seq<char>, gate: Option<Seq<Seq<char>>>) -> Seq<char> {
    match gate {
        Some(names) => if names.len() == 0 {
            "off for this run"@
        } else if names.contains(name) {
            "on for this run (gate)"@
        } else {
            "role opt-in only"@
        },
        None => "role opt-in only"@,
    }
}

/// The command line of a server.
pub open spec fn command_line(server: McpServer) -> Seq<char> {
    if server.args@.len() == 0 {
        server.command@
    } else {
        server.command@ + " "@ + text::joined(text::texts(server.args@), " "@)
    }
}

/// The line of a server.
pub open spec fn server_line(server: McpServer, gate: Option<Seq<Seq<char>>>) -> Seq<char> {
    "  "@ + server.name@ + " \u{2014} "@ + command_line(server) + " \u{2014} "@ + server_status(
        server.name@,
        gate,
    )
}

/// The lines of servers.
pub open spec fn server_lines(
    configured: Seq<McpServer>,
    gate: Option<Seq<Seq<char>>>,
) -> Seq<Seq<char>> {
    Seq::new(configured.len(), |i: int| server_line(configured[i], gate))
}

/// The line that says how the switch stands.
pub open spec fn gate_line(gate: Option<Seq<Seq<char>>>) -> Seq<char> {
    match gate {
        Some(names) => if names.len() == 0 {
            "run gate: off (like --no-mcp) \u{2014} no loop gets MCP tools"@
        } else {
            "run gate: "@ + text::joined(names, ", "@)
                + " \u{2014} the set for loops whose role sets no mcpServers"@
        },
        None => {
            "run gate: none \u{2014} each loop sees a server when its role names it in mcpServers"@
        },
    }
}

/// The listing of the servers and the switch.
pub open spec fn status_text(
    gate: Option<Seq<Seq<char>>>,
    configured: Seq<McpServer>,
) -> Seq<char> {
    if configured.len() == 0 {
        "no MCP servers configured. Declare them under a top-level \"mcpServers\" section of ~/.drip/config.json or in ./.drip/mcp.json (see README), then /mcp lists them."@
    } else {
        text::joined(
            seq!["mcp servers ("@ + text::decimal(configured.len()) + " configured):"@]
                + server_lines(configured, gate) + seq![
                gate_line(gate),
                "/mcp <server>[,<server>] toggles servers for this run (like --mcp); /mcp off turns all off; /mcp roles gives the decision back to the roles."@,
            ],
            "\n"@,
        )
    }
}

fn describe_server(server: &McpServer, gate: &Option<Vec<String>>) -> (r: String)
    ensures
        r@ == server_line(*server, gate_model(*gate)),
{
    let status = match gate {
        Some(names) => if names.len() == 0 {
            "off for this run"
        } else if lists(names, server.name.as_str()) {
            "on for this run (gate)"
        } else {
            "role opt-in only"
        },
        None => "role opt-in only",
    };
    let mut command = server.command.clone();
    if server.args.len() > 0 {
        let rest = join_texts(&server.args, " ");
        command.append(" ");
        command.append(rest.as_str());
    }
    let mut line = concat3("  ", server.name.as_str(), " \u{2014} ");
    line.append(command.as_str());
    line.append(" \u{2014} ");
    line.append(status);
    line
}

/// The listing of every configured server with the command it would run and
/// whether this run may use it, and of the switch.
pub fn report_mcp_status(gate: &Option<Vec<String>>, configured: &Vec<McpServer>) -> (r: String)
    ensures
        r@ == status_text(gate_model(*gate), configured@),
{
    if configured.len() == 0 {
        return "no MCP servers configured. Declare them under a top-level \"mcpServers\" section of ~/.drip/config.json or in ./.drip/mcp.json (see README), then /mcp lists them.".to_string();
    }
    let ghost g = gate_model(*gate);
    let ghost all = server_lines(configured@, g);
    let count = format_decimal(configured.len() as u64);
    let head = concat3("mcp servers (", count.as_str(), " configured):");
    let ghost first = seq![head@];
    let mut lines: Vec<String> = Vec::new();
    lines.push(head);
    let mut i: usize = 0;
    assert(text::texts(lines@) =~= first + all.take(0));
    while i < configured.len()
        invariant
            i <= configured.len(),
            g == gate_model(*gate),
            all == server_lines(configured@, g),
            text::texts(lines@) == first + all.take(i as int),
        decreases configured.len() - i,
    {
        broadcast use text::lemma_texts_push;

        lines.push(describe_server(&configured[i], gate));
        i = i + 1;
        assert(text::texts(lines@) =~= first + all.take(i as int));
    }
    let summary = match gate {
        Some(names) => if names.len() == 0 {
            "run gate: off (like --no-mcp) \u{2014} no loop gets MCP tools".to_string()
        } else {
            let joined = join_texts(names, ", ");
            concat3(
                "run gate: ",
                joined.as_str(),
                " \u{2014} the set for loops whose role sets no mcpServers",
            )
        },
        None => {
            "run gate: none \u{2014} each loop sees a server when its role names it in mcpServers".to_string()
        },
    };
    let ghost so_far = text::texts(lines@);
    let ghost last_two = seq![
        summary@,
        "/mcp <server>[,<server>] toggles servers for this run (like --mcp); /mcp off turns all off; /mcp roles gives the decision back to the roles."@,
    ];
    lines.push(summary);
    lines.push(
        "/mcp <server>[,<server>] toggles servers for this run (like --mcp); /mcp off turns all off; /mcp roles gives the decision back to the roles.".to_string(),
    );
    assert(all.take(i as int) =~= all);
    assert(text::texts(lines@) =~= so_far + last_two);
    join_texts(&lines, "\n")
}

/// Carries out a request on the switch. A name that is not configured leaves the
/// gate as it is.
pub fn mcp_reply(
    request: McpRequest,
    args: &str,
    gate: Option<Vec<String>>,
    configured: &Vec<McpServer>,
) -> (r: McpReply)
    ensures
        (gate_model(r.gate), r.said@, r.is_error) == mcp_outcome(
            request,
            args@,
            gate_model(gate),
            configured@,
        ),
{
    match request {
        McpRequest::Status => {
            let said = report_mcp_status(&gate, configured);
            McpReply { gate, said, is_error: false }
        },
        McpRequest::Off => {
            let none: Vec<String> = Vec::new();
            assert(text::texts(none@) =~= Seq::empty());
            McpReply {
                gate: Some(none),
                said:
                    "mcp: every server is off for this run (like --no-mcp). /mcp roles hands the decision back to the roles.".to_string(),
                is_error: false,
            }
        },
        McpRequest::Roles => McpReply {
            gate: None,
            said:
                "mcp: run gate cleared \u{2014} each loop sees a server exactly when its role names it in mcpServers.".to_string(),
            is_error: false,
        },
        McpRequest::Toggle => {
            let names = split_names(args);
            let ghost all = text::texts(names@);
            let ghost known = server_names(configured@);
            let ghost start = gate_names(gate_model(gate));
            let mut unknown: Vec<String> = Vec::new();
            let mut enabled: Vec<String> = match &gate {
                Some(listed) => clone_texts(listed),
                None => Vec::new(),
            };
            assert(text::texts(enabled@) =~= start);
            assert(text::texts(unknown@) =~= Seq::empty());
            assert(all.take(0) =~= Seq::empty());
            let mut i: usize = 0;
            while i < names.len()
                invariant
                    i <= names.len(),
                    all == text::texts(names@),
                    known == server_names(configured@),
                    text::texts(unknown@) == unknown_names(all.take(i as int), known),
                    text::texts(enabled@) == all_switched(start, all.take(i as int), known),
                decreases names.len() - i,
            {
                broadcast use text::lemma_texts_push;

                assert(all.take(i + 1).drop_last() =~= all.take(i as int));
                let name = names[i].as_str();
                if !knows(configured, name) {
                    if !lists(&unknown, name) {
                        unknown.push(name.to_string());
                    }
                } else {
                    switch_name(&mut enabled, name);
                }
                i = i + 1;
            }
            assert(all.take(i as int) =~= all);
            assert(unknown@.len() == text::texts(unknown@).len());
            assert(enabled@.len() == text::texts(enabled@).len());
            if unknown.len() > 0 {
                let joined = join_texts(&unknown, ", ");
                let said = concat3(
                    "mcp: no configured server named ",
                    joined.as_str(),
                    " \u{2014} /mcp lists the configured servers",
                );
                return McpReply { gate, said, is_error: true };
            }
            let said = if enabled.len() == 0 {
                "mcp: every server is off for this run (like --no-mcp). /mcp roles hands the decision back to the roles.".to_string()
            } else {
                let joined = join_texts(&enabled, ", ");
                concat3(
                    "mcp: ",
                    joined.as_str(),
                    " on for this run (like --mcp) \u{2014} the next goal spawns them.",
                )
            };
            McpReply { gate: Some(enabled), said, is_error: false }
        },
    }
}

/// The `/mcp` command: without an argument it lists the servers; names toggle
/// servers for this run; `off` closes the switch and `roles` opens it again.
pub fn mcp_command(args: &str, gate: Option<Vec<String>>, configured: &Vec<McpServer>) -> (r:
    McpReply)
    ensures
        (gate_model(r.gate), r.said@, r.is_error) == mcp_outcome(
            request_of(text::lowercase(text::trimmed(args@))),
            args@,
            gate_model(gate),
            configured@,
        ),
{
    let trimmed = trim(args);
    let argument = to_lowercase(trimmed.as_str());
    mcp_reply(mcp_request(argument.as_str()), args, gate, configured)
}

// ---------------------------------------------------------------------------
// Laws
// ---------------------------------------------------------------------------

/// A closed gate spawns nothing, whatever the roles name.
pub proof fn law_an_off_gate_spawns_nothing(
    referenced: Seq<Seq<char>>,
    gate: Option<Seq<Seq<char>>>,
)
    requires
        is_off(gate),
    ensures
        spawned(referenced, gate).len() == 0,
{
}

/// Without a gate the roles alone decide.
pub proof fn law_without_a_gate_the_roles_decide(referenced: Seq<Seq<char>>)
    ensures
        spawned(referenced, None) == referenced,
{
}

proof fn lemma_merged(base: Seq<Seq<char>>, more: Seq<Seq<char>>, name: Seq<char>)
    ensures
        merged(base, more).contains(name) <==> base.contains(name) || more.contains(name),
    decreases more.len(),
{
    if more.len() > 0 {
        lemma_merged(base, more.drop_last(), name);
        let before = merged(base, more.drop_last());
        assert(more.drop_last().push(more.last()) =~= more);
        if more.contains(name) {
            let i = choose|i: int| 0 <= i < more.len() && more[i] == name;
            if i < more.len() - 1 {
                assert(more.drop_last()[i] == name);
            }
        }
        if more.drop_last().contains(name) {
            let i = choose|i: int| 0 <= i < more.drop_last().len() && more.drop_last()[i] == name;
            assert(more[i] == name);
        }
        let after = before.push(more.last());
        if before.contains(name) {
            let i = choose|i: int| 0 <= i < before.len() && before[i] == name;
            assert(after[i] == name);
        }
        assert(after[after.len() - 1] == more.last());
        if after.contains(name) {
            let i = choose|i: int| 0 <= i < after.len() && after[i] == name;
            if i < before.len() {
                assert(before[i] == name);
            } else {
                assert(more[more.len() - 1] == name);
            }
        }
    } else {
        assert(!more.contains(name));
    }
}

/// An open switch spawns exactly what the roles name or the switch lists.
pub proof fn law_an_open_gate_spawns_the_union(
    referenced: Seq<Seq<char>>,
    names: Seq<Seq<char>>,
    name: Seq<char>,
)
    requires
        names.len() > 0,
    ensures
        spawned(referenced, Some(names)).contains(name) <==> referenced.contains(name)
            || names.contains(name),
{
    lemma_merged(referenced, names, name);
}

/// Switching a server that is off on and off again leaves the list as it was.
pub proof fn law_switching_twice_changes_nothing(enabled: Seq<Seq<char>>, name: Seq<char>)
    requires
        !enabled.contains(name),
    ensures
        switched(switched(enabled, name), name) == enabled,
{
    let on = enabled.push(name);
    assert(on[on.len() - 1] == name);
    assert(on.contains(name));
    on.index_of_first_ensures(name);
    let i = on.index_of_first(name)->0;
    if i < enabled.len() {
        assert(enabled[i] == name);
    }
    assert(on.remove(i) =~= enabled);
}

/// A name that is not configured opens nothing: the switch stays as it was, and
/// the reply is an error.
pub proof fn law_an_unknown_name_opens_nothing(
    args: Seq<char>,
    gate: Option<Seq<Seq<char>>>,
    configured: Seq<McpServer>,
    name: Seq<char>,
)
    requires
        named(args).contains(name),
        !server_names(configured).contains(name),
    ensures
        mcp_outcome(McpRequest::Toggle, args, gate, configured).0 == gate,
        mcp_outcome(McpRequest::Toggle, args, gate, configured).2,
{
    lemma_unknown_is_found(named(args), server_names(configured), name);
}

proof fn lemma_unknown_is_found(
    names: Seq<Seq<char>>,
    known: Seq<Seq<char>>,
    name: Seq<char>,
)
    requires
        names.contains(name),
        !known.contains(name),
    ensures
        unknown_names(names, known).len() > 0,
    decreases names.len(),
{
    if names.last() != name {
        let i = choose|i: int| 0 <= i < names.len() && names[i] == name;
        assert(names.drop_last()[i] == name);
        lemma_unknown_is_found(names.drop_last(), known, name);
    }
}

/// What `/mcp` asks for: without an argument how things stand, `off` or `none`
/// that every server is off, `roles` or `auto` that the roles decide, and
/// anything else that the servers it names are switched.
pub proof fn law_each_word_of_mcp_asks_for_its_own(argument: Seq<char>)
    ensures
        argument.len() == 0 ==> request_of(argument) == McpRequest::Status,
        argument == "off"@ || argument == "none"@ ==> request_of(argument) == McpRequest::Off,
        argument == "roles"@ || argument == "auto"@ ==> request_of(argument) == McpRequest::Roles,
        argument.len() > 0 && argument != "off"@ && argument != "none"@ && argument != "roles"@
            && argument != "auto"@ ==> request_of(argument) == McpRequest::Toggle,
{
    reveal_strlit("off");
    reveal_strlit("none");
    reveal_strlit("roles");
    reveal_strlit("auto");
    assert("off"@.len() == 3 && "none"@.len() == 4 && "roles"@.len() == 5 && "auto"@.len() == 4);
    assert("none"@[0] == 'n' && "auto"@[0] == 'a');
}

/// What each request does to the switch: how things stand changes nothing, off
/// closes it, the roles open it to themselves. None of them is an error.
pub proof fn law_a_request_sets_the_switch(
    args: Seq<char>,
    gate: Option<Seq<Seq<char>>>,
    configured: Seq<McpServer>,
)
    ensures
        ({
            let (stays, said, failed) = mcp_outcome(McpRequest::Status, args, gate, configured);
            &&& stays == gate
            &&& said == status_text(gate, configured)
            &&& !failed
        }),
        ({
            let (off, said, failed) = mcp_outcome(McpRequest::Off, args, gate, configured);
            &&& off is Some
            &&& off->0.len() == 0
            &&& !failed
        }),
        ({
            let (open, said, failed) = mcp_outcome(McpRequest::Roles, args, gate, configured);
            &&& open is None
            &&& !failed
        }),
{
}

/// Naming servers switches each of them: one that is on goes off, one that is
/// off goes on behind the others, and all others stay. With the last one off
/// everything is off; else those that are on are named.
pub proof fn law_naming_a_server_switches_it(
    args: Seq<char>,
    gate: Option<Seq<Seq<char>>>,
    configured: Seq<McpServer>,
    name: Seq<char>,
)
    requires
        named(args) == seq![name],
        server_names(configured).contains(name),
    ensures
        ({
            let on = match gate {
                Some(names) => names,
                None => Seq::empty(),
            };
            let (next, said, failed) = mcp_outcome(McpRequest::Toggle, args, gate, configured);
            &&& !failed
            &&& next is Some
            &&& !on.contains(name) ==> next->0 == on.push(name)
            &&& on.contains(name) && on.no_duplicates() ==> next->0.len() == on.len() - 1
                && !next->0.contains(name) && (forall|x: Seq<char>|
                x != name ==> (#[trigger] next->0.contains(x) <==> on.contains(x)))
            &&& next->0.len() > 0 ==> said == "mcp: "@ + text::joined(next->0, ", "@)
                + " on for this run (like --mcp) — the next goal spawns them."@
            &&& next->0.len() == 0 ==> said
                == "mcp: every server is off for this run (like --no-mcp). /mcp roles hands the decision back to the roles."@
        }),
{
    let known = server_names(configured);
    let names = named(args);
    let on = gate_names(gate);
    assert(names.drop_last() =~= Seq::empty());
    assert(names.last() == name);
    assert(unknown_names(names.drop_last(), known) =~= Seq::empty());
    assert(unknown_names(names, known).len() == 0);
    assert(all_switched(on, names.drop_last(), known) == on);
    assert(all_switched(on, names, known) == switched(on, name));
    if on.contains(name) && on.no_duplicates() {
        on.index_of_first_ensures(name);
        let i = on.index_of_first(name)->0;
        let left = on.remove(i);
        assert forall|x: Seq<char>| x != name implies (#[trigger] left.contains(x)
            <==> on.contains(x)) by {
            if on.contains(x) {
                let k = choose|k: int| 0 <= k < on.len() && on[k] == x;
                if k < i {
                    assert(left[k] == x);
                } else {
                    assert(left[k - 1] == x);
                }
            }
            if left.contains(x) {
                let k = choose|k: int| 0 <= k < left.len() && left[k] == x;
                if k < i {
                    assert(on[k] == x);
                } else {
                    assert(on[k + 1] == x);
                }
            }
        }
        if left.contains(name) {
            let k = choose|k: int| 0 <= k < left.len() && left[k] == name;
            if k < i {
                assert(on[k] == name);
            } else {
                assert(on[k + 1] == name);
            }
        }
    }
}

/// Servers are named between commas or white space, as many as stand there.
pub proof fn law_names_stand_between_commas(a: Seq<char>, b: Seq<char>)
    requires
        forall|i: int| 0 <= i < a.len() ==> !text::is_space(#[trigger] a[i]) && a[i] != ',',
        a.len() > 0,
    ensures
        named(a) == seq![a],
        named(a + seq![','] + b) == seq![a] + named(b),
        named(a + seq![' '] + b) == seq![a] + named(b),
{
    let plain = commas_as_spaces(a);
    assert(plain =~= a);
    text::law_a_text_without_spaces_is_one_word(a);
    assert(commas_as_spaces(a + seq![','] + b) =~= a + seq![' '] + commas_as_spaces(b));
    assert(commas_as_spaces(a + seq![' '] + b) =~= a + seq![' '] + commas_as_spaces(b));
    text::law_white_space_parts_words(a, ' ', commas_as_spaces(b));
}

/// A server that could not be started is warned of by its name and the reason;
/// one that was started is not.
pub proof fn law_a_server_that_did_not_start_is_warned_of(
    names: Seq<Seq<char>>,
    outcomes: Seq<McpSpawn>,
    name: Seq<char>,
    error: String,
)
    requires
        names.len() == outcomes.len(),
    ensures
        spawn_warnings(names.push(name), outcomes.push(McpSpawn::Started)) == spawn_warnings(
            names,
            outcomes,
        ),
        spawn_warnings(names.push(name), outcomes.push(McpSpawn::Missing)) == spawn_warnings(
            names,
            outcomes,
        ).push(
            "mcp: server \""@ + name
                + "\": not in mcpServers config — its tools are unavailable"@,
        ),
        spawn_warnings(names.push(name), outcomes.push(McpSpawn::Failed(error))) == spawn_warnings(
            names,
            outcomes,
        ).push(
            "mcp: server \""@ + name + "\": "@ + error@ + " — its tools are unavailable"@,
        ),
        spawn_warnings(Seq::empty(), Seq::empty()) == Seq::<Seq<char>>::empty(),
{
    assert(names.push(name).drop_last() =~= names);
    assert(outcomes.push(McpSpawn::Started).drop_last() =~= outcomes);
    assert(outcomes.push(McpSpawn::Missing).drop_last() =~= outcomes);
    assert(outcomes.push(McpSpawn::Failed(error)).drop_last() =~= outcomes);
}

/// The line of a server says whether a run may use it: not while everything is
/// off, always where the switch lists it, and else where its role names it.
pub proof fn law_a_server_is_listed_with_its_state(
    server: McpServer,
    names: Seq<Seq<char>>,
)
    ensures
        ({
            let head = "  "@ + server.name@ + " — "@ + command_line(server) + " — "@;
            &&& server_line(server, None) == head + "role opt-in only"@
            &&& server_line(server, Some(Seq::empty())) == head + "off for this run"@
            &&& names.len() > 0 && names.contains(server.name@) ==> server_line(
                server,
                Some(names),
            ) == head + "on for this run (gate)"@
            &&& names.len() > 0 && !names.contains(server.name@) ==> server_line(
                server,
                Some(names),
            ) == head + "role opt-in only"@
        }),
        server.args@.len() == 0 ==> command_line(server) == server.command@,
        server.args@.len() > 0 ==> command_line(server) == server.command@ + " "@ + text::joined(
            text::texts(server.args@),
            " "@,
        ),
{
}

/// Merging keeps what there is, in place.
pub proof fn law_the_roles_servers_come_first(base: Seq<Seq<char>>, more: Seq<Seq<char>>)
    ensures
        base.is_prefix_of(merged(base, more)),
        base.no_duplicates() ==> merged(base, more).no_duplicates(),
    decreases more.len(),
{
    let m = merged(base, more);
    if more.len() == 0 {
        assert(base =~= base.take(base.len() as int));
    } else {
        let before = merged(base, more.drop_last());
        law_the_roles_servers_come_first(base, more.drop_last());
        assert(base =~= m.take(base.len() as int));
        if base.no_duplicates() && !before.contains(more.last()) {
            assert forall|i: int, j: int|
                0 <= i < m.len() && 0 <= j < m.len() && i != j implies m[i] != m[j] by {
                if i < before.len() && j < before.len() {
                    assert(before[i] != before[j]);
                } else if i < before.len() {
                    assert(before.contains(before[i]));
                } else {
                    assert(before.contains(before[j]));
                }
            }
        }
    }
}

/// What is said of the switch: that everything is off, that the roles decide,
/// which servers are on, and which names nobody configured.
pub proof fn law_the_switch_is_told_as_it_stands(names: Seq<Seq<char>>)
    requires
        names.len() > 0,
    ensures
        off_text()
            == "mcp: every server is off for this run (like --no-mcp). /mcp roles hands the decision back to the roles."@,
        roles_text()
            == "mcp: run gate cleared — each loop sees a server exactly when its role names it in mcpServers."@,
        unknown_text(names) == "mcp: no configured server named "@ + text::joined(names, ", "@)
            + " — /mcp lists the configured servers"@,
        gate_line(None)
            == "run gate: none — each loop sees a server when its role names it in mcpServers"@,
        gate_line(Some(Seq::empty()))
            == "run gate: off (like --no-mcp) — no loop gets MCP tools"@,
        gate_line(Some(names)) == "run gate: "@ + text::joined(names, ", "@)
            + " — the set for loops whose role sets no mcpServers"@,
{
}

/// How things stand is told server by server, in order; without any it is said
/// how to configure one.
pub proof fn law_every_server_is_listed(
    gate: Option<Seq<Seq<char>>>,
    configured: Seq<McpServer>,
    i: int,
)
    requires
        0 <= i < configured.len(),
    ensures
        server_lines(configured, gate).len() == configured.len(),
        server_lines(configured, gate)[i] == server_line(configured[i], gate),
        status_text(gate, configured) == text::joined(
            seq!["mcp servers ("@ + text::decimal(configured.len()) + " configured):"@]
                + server_lines(configured, gate) + seq![
                gate_line(gate),
                "/mcp <server>[,<server>] toggles servers for this run (like --mcp); /mcp off turns all off; /mcp roles gives the decision back to the roles."@,
            ],
            "\n"@,
        ),
        server_names(configured).len() == configured.len(),
        server_names(configured)[i] == configured[i].name@,
{
}

/// Names that nobody configured are told, each once; with any of them the reply
/// names them and the switch stays.
pub proof fn law_unknown_names_are_told(
    names: Seq<Seq<char>>,
    known: Seq<Seq<char>>,
    name: Seq<char>,
    args: Seq<char>,
    gate: Option<Seq<Seq<char>>>,
    configured: Seq<McpServer>,
)
    ensures
        unknown_names(Seq::empty(), known) == Seq::<Seq<char>>::empty(),
        known.contains(name) ==> unknown_names(names.push(name), known) == unknown_names(
            names,
            known,
        ),
        !known.contains(name) && !unknown_names(names, known).contains(name) ==> unknown_names(
            names.push(name),
            known,
        ) == unknown_names(names, known).push(name),
        ({
            let unknown = unknown_names(named(args), server_names(configured));
            unknown.len() > 0 ==> mcp_outcome(McpRequest::Toggle, args, gate, configured).1
                == "mcp: no configured server named "@ + text::joined(unknown, ", "@)
                + " — /mcp lists the configured servers"@
        }),
        gate_model(None) is None,
{
    assert(names.push(name).drop_last() =~= names);
}

} // verus!
