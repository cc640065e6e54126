//! What the listings say.

use drip::tui::app::marketplace::{
    added_text, marketplaces_text, plugin_key_is_known, plugin_text, removed_text, updated_text,
    MarketplaceReport, PluginPart, PluginReport,
};
use drip::tui::app::overlay::{
    open_overlay, short_id, ModelProfile, OverlayKind, PickerLists, PromptProfile, SessionSummary,
};
use drip::tui::app::replies::{
    config_failure_text, config_text, env_references, env_saved_text, env_text, model_label,
    roles_text, sessions_text, state_failed, tool_choice_text, ConfigReport, EnvFound, EnvSource,
    RoleReport,
};

fn session(id: &str, goals: u64, last: Option<&str>) -> SessionSummary {
    SessionSummary {
        id: id.to_string(),
        status: "active".to_string(),
        goal_count: goals,
        last_goal: last.map(str::to_string),
        updated_at: "2026-01-01".to_string(),
    }
}

fn profile(id: &str, label: Option<&str>, model: &str, key: Option<&str>) -> ModelProfile {
    ModelProfile {
        id: id.to_string(),
        label: label.map(str::to_string),
        model: model.to_string(),
        provider: "router".to_string(),
        api_key_ref: key.map(str::to_string),
    }
}

fn part(key: &str, name: &str, description: Option<&str>, enabled: bool) -> PluginPart {
    PluginPart {
        key: key.to_string(),
        name: name.to_string(),
        description: description.map(str::to_string),
        enabled,
    }
}

fn plugins() -> Vec<PluginReport> {
    vec![
        PluginReport {
            key: "shop/tidy".to_string(),
            marketplace_name: "shop".to_string(),
            description: "keeps things tidy".to_string(),
            enabled: true,
            skills: vec![part("shop/tidy/sweep", "sweep", Some("sweeps"), true)],
            roles: vec![part("shop/tidy/janitor", "janitor", None, false)],
        },
        PluginReport {
            key: "other/thing".to_string(),
            marketplace_name: "other".to_string(),
            description: String::new(),
            enabled: false,
            skills: Vec::new(),
            roles: Vec::new(),
        },
    ]
}

fn shop() -> MarketplaceReport {
    MarketplaceReport {
        name: "shop".to_string(),
        kind: "local".to_string(),
        source: "/shop".to_string(),
    }
}

#[test]
fn a_session_listing_marks_the_session_at_hand() {
    assert_eq!(
        sessions_text(&Vec::new(), "a"),
        "no sessions recorded for this directory yet."
    );
    let records = vec![
        session("0123456789", 2, Some("ship it")),
        session("abcdefghij", 0, None),
    ];
    assert_eq!(
        sessions_text(&records, "abcdefghij"),
        "  01234567 · 2026-01-01 · 2 goal(s) · ship it\n▸ abcdefgh · 2026-01-01 · 0 goal(s) · (no goal yet)"
    );
    assert_eq!(short_id("0123456789"), "01234567");
}

#[test]
fn a_state_that_cannot_be_read_is_an_error() {
    assert!(state_failed("Could not read harness state at /s/state.json"));
    assert!(state_failed("The file at /s/state.json is no state"));
    assert!(!state_failed("2 tasks, 1 done"));
}

#[test]
fn the_model_label_names_the_profile_and_a_split() {
    let profiles = Some(vec![
        profile("a", Some("Alpha"), "m-1", None),
        profile("b", None, "m-2", None),
    ]);
    assert_eq!(model_label(&profiles, "a", ""), "Alpha (m-1)");
    assert_eq!(model_label(&profiles, "a", "b"), "Alpha (m-1) · tools: m-2");
    assert_eq!(model_label(&profiles, "b", "b"), "b (m-2)");
    assert_eq!(model_label(&profiles, "gone", ""), "gone");
    assert_eq!(model_label(&profiles, "", ""), "no profile");
    assert_eq!(model_label(&None, "a", ""), "invalid profile config");
    assert_eq!(tool_choice_text("b"), "tool-calling model set to b");
    assert_eq!(
        tool_choice_text(""),
        "tool-calling model cleared — every request uses the active model"
    );
}

#[test]
fn the_config_listing_names_files_and_routes() {
    let mut report = ConfigReport {
        config_path: "/h/config.json".to_string(),
        env_vars_path: "/h/env.vars".to_string(),
        model_label: "Alpha (m-1)".to_string(),
        endpoint: "https://x".to_string(),
        tool_route: Some(("m-2".to_string(), "https://y".to_string())),
        tool_route_warning: None,
        sessions_dir: "/h/sessions".to_string(),
    };
    let text = config_text(&report);
    let lines: Vec<&str> = text.lines().collect();
    assert_eq!(lines[0], "config: /h/config.json");
    assert_eq!(lines[1], "env vars: /h/env.vars");
    assert_eq!(lines[2], "model profile: Alpha (m-1)");
    assert_eq!(lines[3], "endpoint: https://x");
    assert_eq!(lines[4], "tool-calling model: m-2 (https://y)");
    assert_eq!(lines[5], "sessions: /h/sessions");
    assert_eq!(lines.len(), 7);
    report.tool_route = None;
    report.tool_route_warning = Some("unknown profile".to_string());
    assert!(config_text(&report).contains("\ntool-calling model: unknown profile\n"));
    assert_eq!(
        config_failure_text("/h/config.json", "no key"),
        "config: /h/config.json\nprofile error: no key"
    );
}

#[test]
fn tokens_are_listed_once_and_told_apart_without_being_told() {
    let profiles = vec![
        profile("a", None, "m", Some("env: KEY ")),
        profile("b", None, "m", Some("env:OTHER")),
        profile("c", None, "m", Some("env:KEY")),
        profile("d", None, "m", Some("file:secret")),
        profile("e", None, "m", None),
    ];
    let references = env_references(&profiles);
    assert_eq!(references.len(), 2);
    assert_eq!(references[0].name, "KEY");
    assert_eq!(references[0].profile_ids, vec!["a", "c"]);
    assert_eq!(references[1].name, "OTHER");
    let found = vec![
        EnvFound {
            source: EnvSource::File,
            value: "abcdefgh\n".to_string(),
        },
        EnvFound {
            source: EnvSource::Missing,
            value: String::new(),
        },
    ];
    let text = env_text("/h/env.vars", &references, &found);
    assert!(text.starts_with("env file: /h/env.vars\n\n"), "{text}");
    assert!(
        text.contains("● env.vars     KEY (8 chars, …efgh) — a, c\n"),
        "{text}"
    );
    assert!(text.contains("✗ missing      OTHER — b\n"), "{text}");
    assert!(!text.contains("abcd"), "{text}");
    let empty = env_text("/h/env.vars", &Vec::new(), &Vec::new());
    assert!(empty.contains("no model profiles reference env vars."));
    assert_eq!(env_saved_text("KEY", "/h/env.vars"), "KEY saved to /h/env.vars");
}

#[test]
fn tokens_of_one_length_and_end_read_the_same() {
    let references = env_references(&vec![profile("a", None, "m", Some("env:KEY"))]);
    let listed = |value: &str| {
        env_text(
            "/h/env.vars",
            &references,
            &vec![EnvFound {
                source: EnvSource::Process,
                value: value.to_string(),
            }],
        )
    };
    assert_eq!(listed("xxxx1234"), listed("yyyy1234"));
    assert_ne!(listed("xxxx1234"), listed("xxxx1235"));
}

#[test]
fn the_roles_listing_shows_tools_and_bindings() {
    assert!(roles_text(&Vec::new(), &None, &None, &Vec::new()).starts_with("no roles defined."));
    let roles = vec![
        RoleReport {
            name: "author".to_string(),
            description: Some("writes".to_string()),
            tool_names: Some(vec!["READ".to_string(), "PATCH".to_string()]),
            model: Some("m-1".to_string()),
            loop_json: None,
            verified_by: Some("critic".to_string()),
        },
        RoleReport {
            name: "critic".to_string(),
            description: None,
            tool_names: Some(Vec::new()),
            model: None,
            loop_json: Some("{}".to_string()),
            verified_by: None,
        },
        RoleReport {
            name: "any".to_string(),
            description: None,
            tool_names: None,
            model: None,
            loop_json: None,
            verified_by: None,
        },
    ];
    let text = roles_text(
        &roles,
        &Some("author".to_string()),
        &None,
        &vec!["unknown tool X".to_string()],
    );
    assert_eq!(
        text,
        "author — writes\n    tools: READ, PATCH · model: m-1 · verifiedBy: critic\ncritic\n    tools: (harness ops only) · loop: {}\nany\n    tools: all\nbindings: planning=author task=(default) — tasks may carry their own role from plan_tasks\n! unknown tool X"
    );
}

#[test]
fn the_marketplace_listing_shows_what_is_on() {
    assert!(
        marketplaces_text(&Vec::new(), &plugins(), &Vec::new())
            .starts_with("no marketplaces registered.")
    );
    assert_eq!(
        marketplaces_text(&vec![shop()], &plugins(), &vec!["bad manifest".to_string()]),
        "shop (local: /shop)\n  ● shop/tidy — keeps things tidy\n      ● skill sweep — sweeps\n      ○ role janitor\n! bad manifest\n\ntoggle with /plugin enable|disable <marketplace/plugin[/skill]>."
    );
}

#[test]
fn a_registration_counts_its_own_and_names_its_issues() {
    let issues = vec![
        "marketplace \"shop\": bad manifest".to_string(),
        "marketplace \"other\": gone".to_string(),
    ];
    assert_eq!(
        added_text(&shop(), &plugins(), &issues),
        "registered \"shop\" (local): 1 plugin(s), 1 skill(s), 1 role(s).\n! marketplace \"shop\": bad manifest\neverything starts disabled — enable with /plugin enable <key> (see /marketplace list)."
    );
    assert_eq!(
        updated_text(&Vec::new()),
        "nothing to update (local marketplaces read in place)."
    );
    assert_eq!(
        updated_text(&vec!["a".to_string(), "b".to_string()]),
        "updated: a, b"
    );
    assert_eq!(removed_text("shop"), "removed marketplace \"shop\".");
}

#[test]
fn a_key_that_nothing_has_gets_a_note() {
    for key in ["shop/tidy", "shop/tidy/sweep", "shop/tidy/janitor"] {
        assert!(plugin_key_is_known(&plugins(), key), "{key}");
    }
    assert!(!plugin_key_is_known(&plugins(), "shop"));
    assert_eq!(
        plugin_text("shop/tidy", true, &plugins()),
        "shop/tidy enabled (user scope; project overrides live in .drip/plugins.json)."
    );
    let text = plugin_text("ghost", false, &plugins());
    assert!(text.starts_with("ghost disabled (user scope;"), "{text}");
    assert!(text.contains("matches \"ghost\""), "{text}");
}

#[test]
fn pickers_mark_what_is_active() {
    let lists = PickerLists {
        profiles: Some(vec![
            profile("a", Some("Alpha"), "m-1", None),
            profile("b", None, "m-2", None),
        ]),
        active_profile: "b".to_string(),
        active_tool_profile: String::new(),
        prompts: Some(vec![PromptProfile {
            id: "terse".to_string(),
            label: None,
        }]),
        sessions: vec![session("0123456789", 1, Some("ship it"))],
        current_session: "0123456789".to_string(),
    };
    let model = open_overlay(OverlayKind::Model, &lists).expect("profiles are listed");
    let labels: Vec<&str> = model.items.iter().map(|item| item.label.as_str()).collect();
    assert_eq!(labels, vec!["Alpha", "● b"]);
    assert_eq!(model.items[0].detail.as_deref(), Some("router · m-1"));

    let tools = open_overlay(OverlayKind::ToolModel, &lists).expect("profiles are listed");
    assert_eq!(tools.items[0].label, "● no split — use the active model");
    assert_eq!(tools.items[0].id, "");
    assert_eq!(tools.items.len(), 3);

    let prompts = open_overlay(OverlayKind::Prompt, &lists).expect("prompts are listed");
    assert_eq!(prompts.items[0].label, "terse");

    let sessions = open_overlay(OverlayKind::Sessions, &lists).expect("sessions are listed");
    assert_eq!(sessions.items[0].label, "● 01234567 · active · 1 goal(s)");
    assert_eq!(sessions.items[0].detail.as_deref(), Some("ship it"));
    assert!(open_overlay(OverlayKind::Jobs, &lists).is_none());
}
