//! The session as its operator drives it: keys, commands, surveys, runs and
//! background jobs, over a world held in memory.

use drip::ansi::strip_ansi;
use drip::tools::types::{ChatAsyncToolJob, ChatAsyncToolJobStatus};
use drip::transcript::{
    HarnessEventData, HarnessEventType, HarnessRunReason, TranscriptEntry, TranscriptEventEntry,
    TranscriptGoalEntry,
};
use drip::tui::app::activity::{is_scrollback_cell, projected_rows, scrollback_cells};
use drip::tui::app::commands::{praeparare_goal_with_context, PRAEPARARE_DEFAULT_MAX_ITERATIONS};
use drip::tui::app::effects::{Attachment, Effect};
use drip::tui::app::input::{Key, MouseEvent};
use drip::tui::app::job_browser::idle_background_reports;
use drip::tui::app::layout::{composer_lines, composer_text_width};
use drip::tui::app::marketplace::{MarketplaceReport, MarketplaceState};
use drip::tui::app::mcp::{mcp_spawn_names, McpServer};
use drip::tui::app::overlay::{OverlayKind, PickerItem, SessionSummary};
use drip::tui::app::run::{HarnessEvent, RunResult};
use drip::tui::app::skill_picker::SkillLoad;
use drip::tui::app::skills::{
    collect_skill_rows, FoundSkill, LoadedSkill, PluginSkill, SkillRow, SkillSource,
};
use drip::tui::app::slash::get_slash_command_suggestions;
use drip::tui::app::state::{DripHome, SessionPaths, TuiApp, TuiBootstrap, TuiStart};
use drip::tui::app::survey::{
    HarnessSurveyAnswer, HarnessSurveyOption, HarnessSurveyQuestion, QuestionSurvey,
};
use drip::tui::app::titles::apply_title_result;
use drip::tui::app::typing::operator_line;
use drip::tui::compact::{CompactCell, CompactEmitter};
use drip::tui::pane_title::{
    fallback_title, PaneTitle, FALLBACK_LABEL, SPINNER_FRAMES, SPINNER_INTERVAL_MS,
};
use drip::tui::session_name::{persist_session_name, read_session_name};

const PRAEPARARE_GOAL: &str = "Prepare this branch for review.";

const NOW: u64 = 100_000_000;

/// A session and everything around it.
struct World {
    app: TuiApp,
    /// Skills that loading finds, and those whose loading fails.
    skills: Vec<String>,
    broken_skills: Vec<String>,
    /// The metadata of the session, where it has any; writing it may fail.
    meta: Option<String>,
    meta_blocked: bool,
    /// The steering lines of the live run; writing them may fail.
    inbox: String,
    inbox_blocked: bool,
    /// The answer lines of the surveys; writing them may fail.
    answers: String,
    answers_blocked: bool,
    jobs: Vec<ChatAsyncToolJob>,
    reported: Vec<String>,
    log: String,
    in_flight: usize,
    aborted: bool,
    mcp_servers: Vec<McpServer>,
    persisted: Vec<TranscriptEntry>,
    titles: Vec<String>,
    sessions: usize,
    /// Why no run can start; none where runs start.
    refusal: Option<String>,
    started: Vec<String>,
}

fn paths(id: &str) -> SessionPaths {
    SessionPaths {
        dir: format!("/s/{id}"),
        images_dir: format!("/s/{id}/images"),
        inbox_path: format!("/s/{id}/inbox.jsonl"),
        meta_path: format!("/s/{id}/session.json"),
        state_path: format!("/s/{id}/state.json"),
        transcript_path: format!("/s/{id}/transcript.jsonl"),
    }
}

fn record(id: &str) -> SessionSummary {
    SessionSummary {
        id: id.to_string(),
        status: "active".to_string(),
        goal_count: 0,
        last_goal: None,
        updated_at: "2026-01-01T00:00:00Z".to_string(),
    }
}

fn found(names: &[String]) -> Vec<FoundSkill> {
    let mut all: Vec<FoundSkill> = names
        .iter()
        .map(|name| FoundSkill {
            description: format!("test skill {name}"),
            key: None,
            name: name.clone(),
            source: SkillSource::Project,
            bytes: Some(40),
        })
        .collect();
    if !names.iter().any(|name| name == "praeparare") {
        all.push(FoundSkill {
            description: "prepare a branch".to_string(),
            key: None,
            name: "praeparare".to_string(),
            source: SkillSource::Builtin,
            bytes: Some(400),
        });
    }
    all
}

fn catalog(names: &[String]) -> Vec<(String, String)> {
    found(names)
        .into_iter()
        .map(|skill| (skill.name, skill.description))
        .collect()
}

fn rows_of(names: &[String]) -> Vec<SkillRow> {
    collect_skill_rows(&found(names), &Vec::new())
}

impl World {
    fn new(skills: &[&str]) -> World {
        let names: Vec<String> = skills.iter().map(|name| name.to_string()).collect();
        let bootstrap = TuiBootstrap {
            allow_net: false,
            ask: false,
            ask_timeout_secs: None,
            reference_roots: Vec::new(),
            cwd: "/w".to_string(),
            home: DripHome {
                config_path: "/h/config.json".to_string(),
                env_vars_path: "/h/env.vars".to_string(),
                marketplaces_path: "/h/marketplaces.json".to_string(),
                skills_dir: "/h/skills".to_string(),
            },
            initial_goal: None,
            max_iterations: None,
            max_loops: None,
            task_loop_limit: None,
            review_waiver_lines: None,
            plan_mode: None,
            no_repo_memory: true,
            praeparare_goal: PRAEPARARE_GOAL.to_string(),
            session: record("sess-test"),
            status_line: None,
            classifier: None,
            no_classifier: false,
        };
        let app = TuiApp::new(TuiStart {
            bootstrap,
            paths: paths("sess-test"),
            session_name: None,
            is_tty: false,
            cols: 80,
            rows: 40,
            now: NOW,
            stamp: "2026-01-01T00:00:00.000Z".to_string(),
            skill_catalog: catalog(&names),
            skill_rows: rows_of(&names),
            jobs: Vec::new(),
            job_ages: Vec::new(),
        });
        World {
            app,
            skills: names,
            broken_skills: Vec::new(),
            meta: None,
            meta_blocked: false,
            inbox: String::new(),
            inbox_blocked: false,
            answers: String::new(),
            answers_blocked: false,
            jobs: Vec::new(),
            reported: Vec::new(),
            log: "the build is still going".to_string(),
            in_flight: 0,
            aborted: false,
            mcp_servers: Vec::new(),
            persisted: Vec::new(),
            titles: Vec::new(),
            sessions: 0,
            refusal: Some("no inference profile".to_string()),
            started: Vec::new(),
        }
    }

    fn with_jobs(jobs: Vec<ChatAsyncToolJob>) -> World {
        let mut world = World::new(&[]);
        world.jobs = jobs;
        world
    }

    fn running_jobs(&self) -> Vec<ChatAsyncToolJob> {
        self.jobs
            .iter()
            .filter(|job| job.status == ChatAsyncToolJobStatus::Running)
            .map(|job| job.clone_job())
            .collect()
    }

    fn ages(&self) -> Vec<Option<i64>> {
        self.running_jobs().iter().map(|_| Some(20_000)).collect()
    }

    fn set_jobs(&mut self, jobs: Vec<ChatAsyncToolJob>) {
        self.jobs = jobs;
    }

    fn take_settled_unreported(&mut self) -> Vec<ChatAsyncToolJob> {
        let mut settled = Vec::new();
        for job in &self.jobs {
            if job.status != ChatAsyncToolJobStatus::Running && !self.reported.contains(&job.id) {
                self.reported.push(job.id.clone());
                settled.push(job.clone_job());
            }
        }
        settled
    }

    fn refresh_jobs(&mut self) -> bool {
        let (rows, ages) = (self.running_jobs(), self.ages());
        self.app.refresh_jobs(rows, ages)
    }

    fn switch_to(&mut self, id: &str) {
        let name = read_session_name(self.meta.as_deref());
        self.app
            .switch_session(record(id), paths(id), name, Vec::new());
        self.perform();
    }

    /// Carries out what the session asks for, until it asks for nothing.
    fn perform(&mut self) {
        loop {
            let effects = self.app.take_effects();
            if effects.is_empty() {
                return;
            }
            for effect in effects {
                self.carry_out(effect);
            }
        }
    }

    fn carry_out(&mut self, effect: Effect) {
        match effect {
            Effect::Persist(entry) => self.persisted.push(entry),
            Effect::Title(escape) => self.titles.push(escape),
            Effect::Abort => self.aborted = true,
            Effect::StopCommands => {
                let stopped = self.in_flight;
                self.in_flight = 0;
                self.app.report_stopped(stopped);
            }
            Effect::SteerTyped(text) => {
                let failure = self.inbox_blocked.then_some("blocked".to_string());
                if failure.is_none() {
                    self.inbox.push_str(&operator_line(&self.app.stamp, &text));
                }
                self.app.finish_typed_steer(text, failure);
            }
            Effect::SteerQueue(texts) => {
                let failure = self.inbox_blocked.then_some("blocked".to_string());
                let sent = if failure.is_none() { texts.len() } else { 0 };
                for text in texts.iter().take(sent) {
                    self.inbox.push_str(&operator_line(&self.app.stamp, text));
                }
                self.app.finish_queue_steer(sent, failure);
            }
            Effect::WriteAnswers => {
                let failure = self.answers_blocked.then_some("blocked".to_string());
                if failure.is_none() {
                    let state = self.app.survey.as_ref().expect("a survey is answered");
                    self.answers.push_str(&answer_line(&state.answers, None));
                }
                self.app.finish_survey(failure);
            }
            Effect::WriteChat(text) => {
                let failure = self.answers_blocked.then_some("blocked".to_string());
                if failure.is_none() {
                    self.answers.push_str(&answer_line(&[], Some(&text)));
                }
                self.app.finish_chat(text, failure);
            }
            Effect::HandOffJobs => {
                if self.app.claims_reports() {
                    let settled = self.take_settled_unreported();
                    self.app.handoff_settled_background_jobs(&settled);
                }
            }
            Effect::StartRun { goal, images } => {
                self.started.push(goal.clone());
                let images: Vec<String> = images.into_iter().map(|image| image.path).collect();
                self.app.show_goal(&goal, images, Vec::new(), &Vec::new());
                let name = read_session_name(self.meta.as_deref());
                self.app.begin_title(&goal, false, name.as_deref());
                match self.refusal.clone() {
                    Some(error) => self.app.refuse_run(&error),
                    None => self.app.launch(),
                }
            }
            Effect::OpenSession(id) | Effect::ResumeSession(id) => self.switch_to(&id),
            Effect::NewSession => {
                self.sessions += 1;
                let id = format!("sess-new-{}", self.sessions);
                self.meta = None;
                self.app
                    .start_session(record(&id), paths(&id), None, Vec::new());
            }
            Effect::LoadSkill(name) => {
                let load = if self.broken_skills.contains(&name) {
                    SkillLoad::Failed("missing argument".to_string())
                } else if found(&self.skills).iter().any(|skill| skill.name == name) {
                    SkillLoad::Loaded(LoadedSkill {
                        name: name.clone(),
                        content: format!("Body for {name}."),
                    })
                } else {
                    SkillLoad::Missing
                };
                self.app.adopt_skill(&name, load);
            }
            Effect::BrowseSkills => {
                let names = self.skills.clone();
                self.app.open_skill_picker(catalog(&names), rows_of(&names));
            }
            Effect::RefreshSkills => {
                let names = self.skills.clone();
                self.app
                    .refresh_skill_catalog(catalog(&names), rows_of(&names));
            }
            Effect::OpenJobs { row } => {
                let (rows, ages) = (self.running_jobs(), self.ages());
                self.app.open_jobs(row, rows, ages);
            }
            Effect::OpenJobDetail(index) => {
                let (rows, ages) = (self.running_jobs(), self.ages());
                self.app.open_job_detail(index, rows, ages);
            }
            Effect::CaptureClipboard => self.app.adopt_clipboard(None, ""),
            Effect::Paste(raw) => self.app.on_paste(&raw, None),
            Effect::SaveName { chosen, manual } => {
                let written = if self.meta_blocked {
                    None
                } else {
                    persist_session_name(self.meta.as_deref(), &chosen)
                };
                let saved = written.is_some();
                if saved {
                    self.meta = written;
                }
                self.app.adopt_name(&chosen, manual, saved);
            }
            // No model is configured.
            Effect::GenerateName => self.app.refuse_rename(),
            Effect::RequestTitle { .. } => {}
            Effect::Mcp(args) => self.app.mcp_command(&args, &self.mcp_servers),
            other => panic!("nothing here asks for {other:?}"),
        }
    }

    fn key(&mut self, key: Key) {
        let log = self.log.clone();
        self.app.on_key(&key, &log);
        self.perform();
    }

    fn submit(&mut self) {
        self.app.submit();
        self.perform();
    }

    fn dispatch(&mut self, name: &str, args: &str) {
        self.app.dispatch_command(name, args);
        self.perform();
    }

    fn live(&self) -> Vec<String> {
        self.app.live_region(&self.log)
    }

    fn begin_survey(&mut self, survey: QuestionSurvey) {
        self.app.begin_survey(survey);
        self.perform();
    }

    fn finish_run(&mut self) {
        self.app.finish_run();
        self.perform();
    }

    fn name(&self) -> Option<String> {
        read_session_name(self.meta.as_deref())
    }

    fn rename_result(&mut self, epoch: u64, name: Option<String>) {
        self.app.apply_rename_result(epoch, name);
        self.perform();
    }
}

/// One line of a survey's answers.
fn answer_line(answers: &[HarnessSurveyAnswer], chat: Option<&str>) -> String {
    let mut line = serde_json::Map::new();
    let answers: Vec<serde_json::Value> = answers
        .iter()
        .map(|answer| {
            let mut fields = serde_json::Map::new();
            fields.insert("index".to_string(), answer.index.into());
            if let Some(choice) = &answer.choice {
                fields.insert("choice".to_string(), choice.clone().into());
            }
            if let Some(other) = &answer.other {
                fields.insert("other".to_string(), other.clone().into());
            }
            serde_json::Value::Object(fields)
        })
        .collect();
    line.insert("answers".to_string(), serde_json::Value::Array(answers));
    if let Some(chat) = chat {
        line.insert("chat".to_string(), chat.into());
    }
    format!("{}\n", serde_json::Value::Object(line))
}

fn label(world: &World) -> String {
    world
        .app
        .titles
        .pane_title
        .as_ref()
        .expect("pane title exists")
        .label()
        .to_string()
}

fn type_text(app: &mut TuiApp, text: &str) {
    app.composer
        .apply_edit(text.to_string(), text.chars().count());
}

fn plain(rows: &[String]) -> Vec<String> {
    rows.iter().map(|row| strip_ansi(row)).collect()
}

/// The canned goal entered the ordinary path of a run.
fn assert_praeparare_goal_entered_the_run_path(app: &TuiApp) {
    assert!(
        app.feed.cells.iter().any(
            |entry| matches!(entry, TranscriptEntry::Goal(goal) if goal.text == PRAEPARARE_GOAL)
        ),
        "the shared canned goal must reach run_goal via the ordinary user-turn path"
    );
}

/// The newest note in the timeline.
fn last_info(app: &TuiApp) -> String {
    app.feed
        .cells
        .iter()
        .rev()
        .find_map(|entry| match entry {
            TranscriptEntry::Info(note) => Some(note.text.clone()),
            _ => None,
        })
        .expect("an info line landed in the timeline")
}

#[test]
fn rename_attempt_drops_in_flight_auto_title_replies() {
    let mut fixture = World::new(&[]);
    fixture.app.titles.pane_title = Some(PaneTitle::new("ship the release"));
    let before = fixture.app.titles.title_epoch;
    // No profile is configured, so begin_rename refuses after the epoch
    // bump — the bump guards every attempt, not just scheduled ones.
    fixture.app.rename("");
    fixture.perform();
    assert_eq!(fixture.app.titles.title_epoch, before.wrapping_add(1));
    assert_eq!(fixture.app.titles.rename_epoch, 0);
    let epoch = fixture.app.titles.title_epoch;
    // The late auto-title reply for the old epoch is rejected and the
    // current label survives.
    assert!(apply_title_result(
        &mut fixture.app.titles.pane_title,
        before,
        epoch,
        Some("Late Auto Title".to_string()),
        NOW,
    )
    .is_none());
    assert_eq!(
        label(&fixture),
        fallback_title("ship the release")
    );
}

#[test]
fn rename_command_is_recognized_and_never_starts_a_goal() {
    let mut fixture = World::new(&[]);
    // /rename is recognized (it never starts a goal). With no inference
    // profile configured it refuses before scheduling anything.
    fixture.dispatch("rename", "");
    assert!(!fixture.app.running);
    assert_eq!(fixture.app.titles.rename_epoch, 0);
}

#[test]
fn manual_rename_applies_while_a_goal_is_running() {
    let mut fixture = World::new(&[]);
    fixture.app.running = true;
    fixture.app.titles.pane_title = Some(PaneTitle::new("goal fallback"));
    fixture.app.titles.pane_title
        .as_mut()
        .unwrap()
        .set_busy(true, NOW);
    let title_epoch = fixture.app.titles.title_epoch;
    fixture.dispatch("rename", "Mid-run name");
    assert!(fixture.app.running, "/rename must not end or restart the run");
    assert_eq!(
        fixture.name().as_deref(),
        Some("Mid-run name"),
        "the literal name persists to session.json during the run"
    );
    let title = fixture.app.titles.pane_title.as_ref().unwrap();
    assert_eq!(title.label(), "Mid-run name");
    assert!(title.is_busy(), "renaming keeps the spinner running");
    assert!(
        fixture.app.titles.title_epoch > title_epoch,
        "an in-flight auto-title reply must become stale"
    );
}

#[test]
fn submit_dispatches_rename_immediately_while_running_but_queues_other_input() {
    let mut fixture = World::new(&[]);
    fixture.app.running = true;
    fixture.app.composer.text = "/rename Renamed live".to_string();
    fixture.submit();
    assert!(
        fixture.app.queued_prompts.is_empty(),
        "/rename must not wait in the queue"
    );
    assert_eq!(
        fixture.name().as_deref(),
        Some("Renamed live")
    );
    // Other slash commands and plain text still queue for the next run.
    fixture.app.composer.text = "/help".to_string();
    fixture.submit();
    fixture.app.composer.text = "next goal".to_string();
    fixture.submit();
    assert_eq!(fixture.app.queued_prompts.len(), 2);
    assert_eq!(fixture.app.queued_prompts[0], "/help");
    assert_eq!(fixture.app.queued_prompts[1], "next goal");
}

#[test]
fn rename_failure_keeps_the_current_title() {
    let mut fixture = World::new(&[]);
    fixture.app.titles.pane_title = Some(PaneTitle::new("ship the release"));
    let before = label(&fixture);
    // A failed generation keeps the current name...
    fixture.rename_result(0, None);
    assert_eq!(label(&fixture), before);
    // ...and so does a success that could not be persisted.
    fixture.meta_blocked = true;
    fixture.rename_result(0, Some("Alpha Beta Gamma".to_string()));
    assert_eq!(label(&fixture), before);
}

#[test]
fn rename_success_updates_the_title_and_stale_epochs_are_ignored() {
    let mut fixture = World::new(&[]);
    fixture.app.titles.pane_title = Some(PaneTitle::new("ship the release"));
    let before = label(&fixture);
    let name = "Ship the release candidate today";
    fixture.rename_result(0, Some(name.to_string()));
    let after = label(&fixture);
    assert_eq!(after, name);
    assert_ne!(after, before);
    // A late reply from an earlier epoch (the session changed meanwhile)
    // is dropped instead of clobbering the live title.
    fixture.rename_result(99, Some("Totally Stale Name Here".to_string()));
    assert_eq!(label(&fixture), after);
}

#[test]
fn resume_restores_the_persisted_rename() {
    let mut fixture = World::new(&[]);
    fixture.app.titles.pane_title = Some(PaneTitle::new("ship the release"));
    fixture.switch_to("sess-test");
    let fallback = label(&fixture);
    let name = "Ship the release candidate today";
    fixture.meta = persist_session_name(None, name);
    assert!(fixture.meta.is_some());
    assert_ne!(fallback, name);
    fixture.switch_to("sess-test");
    let restored = label(&fixture);
    assert_eq!(restored, name, "resume must restore the persisted rename");
}

#[test]
fn switching_sessions_drops_in_flight_renames() {
    let mut fixture = World::new(&[]);
    fixture.app.titles.pane_title = Some(PaneTitle::new("ship the release"));
    // A /rename issued in session A is in flight: the worker captured
    // epoch 1 before the user switches away.
    fixture.app.titles.rename_epoch = 1;
    let stale_name = "Session A Name Right Here";

    // /new routes through switch_session, which must invalidate the
    // in-flight rename so its late reply cannot clobber the new label.
    fixture.dispatch("new", "");
    assert_eq!(fixture.app.titles.rename_epoch, 2, "/new must bump the rename epoch");
    let fresh = label(&fixture);
    fixture.rename_result(1, Some(stale_name.to_string()));
    assert_ne!(
        label(&fixture),
        stale_name,
        "stale rename must not clobber /new"
    );
    assert_eq!(label(&fixture), fresh);

    // /resume is the other switch path; the same protection applies.
    fixture.app.titles.rename_epoch = 10;
    fixture.dispatch("resume", "sess-other");
    assert_eq!(fixture.app.titles.rename_epoch, 11, "/resume must bump the rename epoch");
    fixture.rename_result(10, Some(stale_name.to_string()));
    assert_eq!(
        label(&fixture),
        FALLBACK_LABEL,
        "stale rename must not clobber /resume"
    );
}

#[test]
fn manual_renames_without_model_configuration() {
    let mut fixture = World::new(&[]);
    fixture.app.titles.pane_title = Some(PaneTitle::new("ship the release"));
    // A short manual name works with no inference profile: no model call,
    // no transcript, no generated-name word rules.
    fixture.dispatch("rename", "Ops");
    assert_eq!(fixture.app.titles.rename_epoch, 1, "manual rename bumps the epoch");
    assert_eq!(label(&fixture), "Ops");
    assert_eq!(
        fixture.name().as_deref(),
        Some("Ops"),
        "manual name must persist verbatim"
    );
    // A multiword name keeps its interior spacing (trimmed only at the
    // ends) and is not held to the generated 5-7 word rule.
    let multiword = "Ops: incident 42 (follow-up)";
    fixture.dispatch("rename", &format!("  {multiword}  "));
    assert_eq!(fixture.app.titles.rename_epoch, 2);
    assert_eq!(label(&fixture), multiword);
    assert_eq!(
        fixture.name().as_deref(),
        Some(multiword)
    );
    // Resume (switch away and back) restores the manual name verbatim.
    fixture.switch_to("sess-test");
    assert_eq!(
        label(&fixture),
        multiword,
        "resume must restore the manual name"
    );
}

#[test]
fn whitespace_only_args_route_to_auto_rename() {
    let mut fixture = World::new(&[]);
    fixture.app.titles.pane_title = Some(PaneTitle::new("ship the release"));
    let before = label(&fixture);
    // Whitespace-only args are not a manual name: they route to the auto
    // path, which without a profile refuses before any epoch bump or
    // persistence.
    fixture.dispatch("rename", "   ");
    assert_eq!(fixture.app.titles.rename_epoch, 0);
    assert_eq!(label(&fixture), before);
    assert_eq!(fixture.name(), None);
}

#[test]
fn manual_rename_beats_stale_auto_results() {
    let mut fixture = World::new(&[]);
    fixture.app.titles.pane_title = Some(PaneTitle::new("ship the release"));
    // An auto /rename is in flight (its worker captured epoch 0), then
    // the user applies a manual name, which bumps both epochs on the UI
    // thread before anything else can land.
    fixture.dispatch("rename", "Ops");
    assert_eq!(fixture.app.titles.rename_epoch, 1);
    // The stale auto-rename reply arrives: dropped by the epoch guard,
    // leaving the manual name on screen AND on disk.
    fixture.rename_result(0, Some("Auto Generated Name Right Here".to_string()));
    assert_eq!(label(&fixture), "Ops");
    assert_eq!(
        fixture.name().as_deref(),
        Some("Ops"),
        "stale auto rename must not clobber the persisted manual name"
    );
    // A stale auto-title reply is likewise rejected after the bump.
    assert!(apply_title_result(
        &mut fixture.app.titles.pane_title,
        1,
        0,
        Some("Late Auto Title".to_string()),
        NOW
    )
    .is_none());
    assert_eq!(label(&fixture), "Ops");
}

#[test]
fn persisted_rename_name_still_spins_and_settles_across_runs() {
    let mut fixture = World::new(&[]);
    fixture.app.titles.pane_title = Some(PaneTitle::new("ship the release"));
    fixture.dispatch("rename", "Ops");
    assert_eq!(label(&fixture), "Ops");

    // A goal on a session with a persisted manual name: the one-shot
    // auto-title is suppressed, but the spinner must still start...
    let name = fixture.name();
    fixture.app.begin_title("second goal", true, name.as_deref());
    let title = fixture.app.titles.pane_title.as_ref().expect("title exists");
    assert!(title.is_busy(), "spinner must run even with a manual name");
    assert!(fixture.app.titles.title_next_tick.is_some(), "spinner tick must be armed");
    assert_eq!(title.label(), "Ops", "manual name keeps the label");
    // ...tick while busy...
    let escape = fixture.app.titles.pane_title.as_mut().and_then(|title| {
        title.tick(NOW + 2 * SPINNER_INTERVAL_MS)
    });
    assert!(escape.is_some(), "a due tick advances the spinner");
    // ...and the run end settles busy -> idle with the name intact.
    fixture.finish_run();
    let title = fixture.app.titles.pane_title.as_ref().expect("title exists");
    assert!(!title.is_busy());
    assert_eq!(title.label(), "Ops");
    assert!(fixture.app.titles.title_next_tick.is_none());

    // The next goal spins again on the same label, then settles again.
    fixture.app.begin_title("third goal", true, name.as_deref());
    assert!(fixture.app.titles.pane_title.as_ref().expect("title exists").is_busy());
    fixture.finish_run();
    assert!(!fixture.app.titles.pane_title.as_ref().expect("title exists").is_busy());
    assert_eq!(label(&fixture), "Ops");
}

#[test]
fn headless_runs_never_materialize_a_title_or_arm_the_spinner() {
    let mut fixture = World::new(&[]);
    // Tests run headless (no TTY): begin_title materializes nothing and
    // arms no tick, and never spawns the auto-title worker.
    let shows = fixture.app.is_tty;
    fixture.app.begin_title("first goal", shows, None);
    assert!(fixture.app.titles.pane_title.is_none());
    assert!(fixture.app.titles.title_next_tick.is_none());
}

#[test]
fn direct_slash_token_activates_skill_for_session() {
    let mut fixture = World::new(&["navis"]);
    fixture.app.composer.text = "/navis".to_string();
    fixture.submit();
    assert_eq!(
        fixture.app.active_skills.len(),
        1,
        "/navis should enable the navis skill"
    );
    assert_eq!(fixture.app.active_skills[0].name, "navis");
    assert!(
        !fixture.app.running,
        "enabling a skill must not start a prompt run"
    );
    assert!(
        fixture.app.composer.text.is_empty(),
        "submitting a slash command clears the composer"
    );
}

#[test]
fn repeat_direct_activation_is_idempotent() {
    let mut fixture = World::new(&["navis"]);
    fixture.dispatch("navis", "");
    fixture.dispatch("navis", "");
    assert_eq!(
        fixture.app.active_skills.len(),
        1,
        "repeat activation must not duplicate, disable, or reload the skill"
    );
    assert_eq!(fixture.app.active_skills[0].name, "navis");
}

#[test]
fn praeparare_slash_command_activates_skill_and_runs_canned_goal() {
    let mut fixture = World::new(&["navis"]);
    fixture.app.composer.text = "/praeparare".to_string();
    fixture.submit();
    assert_eq!(
        fixture.app.active_skills.len(),
        1,
        "/praeparare must activate the praeparare skill for the session"
    );
    assert_eq!(fixture.app.active_skills[0].name, "praeparare");
    assert!(
        fixture.app.composer.text.is_empty(),
        "submit must clear the composer: the goal reaches the run path, not the editor"
    );
    assert_praeparare_goal_entered_the_run_path(&fixture.app);
}

#[test]
fn praeparare_project_skill_cannot_reduce_the_command_to_activation_only() {
    // A project skill named praeparare shadows the built-in pack, but
    // "/praeparare" must still submit the shared canned goal — not degrade
    // to the plain "/<skill>" activation-only path.
    let mut fixture = World::new(&["praeparare"]);
    fixture.app.composer.text = "/praeparare".to_string();
    fixture.submit();
    assert_eq!(fixture.app.active_skills.len(), 1);
    assert_eq!(fixture.app.active_skills[0].name, "praeparare");
    assert!(
        fixture.app.composer.text.is_empty(),
        "submit must clear the composer: the goal reaches the run path, not the editor"
    );
    assert_praeparare_goal_entered_the_run_path(&fixture.app);
}

#[test]
fn praeparare_args_become_operator_context_via_the_shared_cli_helper() {
    // Distinct constructed context (not the shipped fixture strings):
    // nonempty args must extend the goal through the SAME helper the CLI
    // uses, not be dropped.
    let mut fixture = World::new(&["navis"]);
    fixture.dispatch("praeparare", "the notes in NOTES.md are intentional");
    let expected = praeparare_goal_with_context(
        PRAEPARARE_GOAL,
        "the notes in NOTES.md are intentional",
    );
    assert_ne!(
        expected, PRAEPARARE_GOAL,
        "the constructed context must actually extend the canned goal"
    );
    assert!(
        fixture.app.feed.cells
            .iter()
            .any(|entry| matches!(entry, TranscriptEntry::Goal(goal) if goal.text == expected)),
        "nonempty /praeparare args must reach the run path as operator context"
    );
}

#[test]
fn praeparare_blank_args_leave_the_canned_goal_unchanged() {
    let mut fixture = World::new(&["navis"]);
    fixture.dispatch("praeparare", "   ");
    assert_praeparare_goal_entered_the_run_path(&fixture.app);
    assert!(
        !fixture.app.feed.cells
            .iter()
            .any(|entry| matches!(entry, TranscriptEntry::Goal(goal)
                if goal.text.contains("Operator context"))),
        "whitespace-only args must not append an operator-context block"
    );
}

#[test]
fn praeparare_unset_budget_defaults_to_fifteen() {
    let mut fixture = World::new(&["navis"]);
    assert_eq!(fixture.app.bootstrap.max_iterations, None);
    fixture.dispatch("praeparare", "");
    assert_eq!(
        fixture.app.bootstrap.max_iterations,
        Some(PRAEPARARE_DEFAULT_MAX_ITERATIONS),
        "an unset budget must default to the shared 15-iteration constant"
    );
}

#[test]
fn praeparare_preserves_an_explicit_budget() {
    let mut fixture = World::new(&["navis"]);
    fixture.app.bootstrap.max_iterations = Some(7);
    fixture.dispatch("praeparare", "");
    assert_eq!(
        fixture.app.bootstrap.max_iterations,
        Some(7),
        "an explicitly chosen budget must not be overridden by the default"
    );
}

#[test]
fn built_in_commands_win_over_same_named_skills() {
    let mut fixture = World::new(&["skills", "help"]);
    fixture.dispatch("skills", "");
    assert!(
        fixture.app.active_skills.is_empty(),
        "/skills must open the picker, never activate the same-named skill"
    );
    assert_eq!(
        fixture.app.overlay.as_ref().map(|overlay| overlay.kind),
        Some(OverlayKind::Skills),
        "/skills must open the interactive picker"
    );
    fixture.app.overlay = None;
    fixture.dispatch("help", "");
    assert!(
        fixture.app.active_skills.is_empty(),
        "/help must keep its help behavior"
    );
    // /skill keeps its toggle path even for a name that collides with a
    // built-in command, so such a skill is still usable.
    fixture.dispatch("skill", "help");
    assert_eq!(fixture.app.active_skills.len(), 1);
    assert_eq!(fixture.app.active_skills[0].name, "help");
}

#[test]
fn slash_skills_opens_an_interactive_picker_without_writing_history() {
    let mut fixture = World::new(&["navis", "nada"]);
    let roots = fixture.app.feed.cells.len();
    fixture.dispatch("skills", "");
    assert_eq!(
        fixture.app.overlay.as_ref().map(|overlay| overlay.kind),
        Some(OverlayKind::Skills),
        "/skills opens the picker"
    );
    assert_eq!(
        fixture.app.feed.cells.len(),
        roots,
        "the picker must not dump a skill list into the transcript"
    );
    assert!(
        fixture.app.overlay.as_ref().unwrap().items.len() >= 2,
        "the project skills are listed"
    );

    // typing filters the list live
    fixture.key(Key::Text("nad".to_string()));
    let items = &fixture.app.overlay.as_ref().unwrap().items;
    assert_eq!(items.len(), 1, "only the nada row matches: {items:?}");
    assert_eq!(items[0].id, "nada");
    for _ in 0..3 {
        fixture.key(Key::Backspace);
    }
    assert!(
        fixture.app.overlay.as_ref().unwrap().items.len() >= 2,
        "backspace widens the list again"
    );

    // enter toggles the highlighted skill on and keeps the picker open
    fixture.key(Key::Text("navis".to_string()));
    assert_eq!(
        fixture.app.overlay.as_ref().unwrap().items.len(),
        1,
        "navis is the only match"
    );
    fixture.key(Key::Return);
    assert_eq!(fixture.app.active_skills.len(), 1);
    assert_eq!(fixture.app.active_skills[0].name, "navis");
    assert!(
        fixture.app.overlay.is_some(),
        "toggling keeps the picker open"
    );

    // space toggles it back off, still without closing
    fixture.key(Key::Text(" ".to_string()));
    assert!(fixture.app.active_skills.is_empty());
    assert!(fixture.app.overlay.is_some());

    // esc closes leaving no list in the transcript
    fixture.key(Key::Escape);
    assert!(fixture.app.overlay.is_none());
    let dumps = fixture.app.feed.cells
        .iter()
        .filter(|entry| matches!(entry, TranscriptEntry::Info(note) if note.text.contains("test skill")))
        .count();
    assert_eq!(dumps, 0, "no skill list may land in the transcript");
}

#[test]
fn skill_picker_rows_carry_origin_and_rough_size() {
    let fixture = World::new(&["navis"]);
    let row = fixture.app.skill_rows
        .iter()
        .find(|row| row.name == "navis")
        .expect("the project skill has a picker row");
    assert_eq!(row.source, SkillSource::Project);
    assert!(row.tokens >= 1, "every row carries a size estimate");
    assert!(
        fixture.app.skill_rows
            .iter()
            .any(|row| row.source == SkillSource::Builtin),
        "built-in skills are listed too"
    );
}

#[test]
fn unknown_slash_token_stays_inactive() {
    let mut fixture = World::new(&["navis"]);
    fixture.dispatch("definitely-not-a-skill", "");
    assert!(fixture.app.active_skills.is_empty());
    assert!(!fixture.app.running);
}

#[test]
fn skill_that_fails_to_load_is_not_activated() {
    let mut fixture = World::new(&[]);
    // An args frontmatter entry with no default is a required arg; loading
    // without supplying it must fail and leave nothing half-activated.
    fixture.skills.push("needsarg".to_string());
    fixture.broken_skills.push("needsarg".to_string());
    fixture.dispatch("needsarg", "");
    assert!(
        fixture.app.active_skills.is_empty(),
        "a failed load must not activate the skill"
    );
    assert!(!fixture.app.running);
}

#[test]
fn skill_menu_suggests_by_prefix_with_description() {
    let mut fixture = World::new(&["navis", "other"]);
    type_text(&mut fixture.app, "/na");
    assert_eq!(fixture.app.composer.skill_suggestions.len(), 1);
    assert_eq!(fixture.app.composer.skill_suggestions[0].0, "navis");
    assert_eq!(fixture.app.composer.skill_suggestions[0].1, "test skill navis");
    assert!(fixture.app.composer.skill_suggestions.iter().all(|s| s.0 != "other"));
}

#[test]
fn skill_menu_orders_exact_names_before_qualified_segments() {
    let mut fixture = World::new(&["spellcraft:navis", "navis"]);
    type_text(&mut fixture.app, "/na");
    let names: Vec<&str> = fixture.app.composer.skill_suggestions
        .iter()
        .map(|s| s.0.as_str())
        .collect();
    assert_eq!(names, vec!["navis", "spellcraft:navis"]);
}

#[test]
fn skill_menu_excludes_built_in_names_and_slash_menu_wins() {
    let mut fixture = World::new(&["help"]);
    type_text(&mut fixture.app, "/he");
    assert!(!get_slash_command_suggestions(&fixture.app.composer.text).is_empty());
    assert!(fixture.app.composer.skill_suggestions.is_empty());
}

#[test]
fn arrows_move_skill_selection_and_tab_completes_without_submitting() {
    let mut fixture = World::new(&["navis", "nada"]);
    type_text(&mut fixture.app, "/na");
    assert_eq!(fixture.app.composer.skill_suggestions.len(), 2);
    assert_eq!(fixture.app.composer.selected_skill_index, 0);
    fixture.key(Key::Down);
    assert_eq!(fixture.app.composer.selected_skill_index, 1);
    fixture.key(Key::Up);
    assert_eq!(fixture.app.composer.selected_skill_index, 0);
    let selected = fixture.app.composer.skill_suggestions[fixture.app.composer.selected_skill_index]
        .0
        .clone();
    fixture.key(Key::Tab);
    assert_eq!(fixture.app.composer.text, format!("/{selected} "));
    assert!(!fixture.app.running, "Tab completes; it must not submit");
    assert!(
        fixture.app.active_skills.is_empty(),
        "Tab must not activate the skill"
    );
}

#[test]
fn enter_after_completion_activates_for_session() {
    let mut fixture = World::new(&["navis"]);
    type_text(&mut fixture.app, "/na");
    fixture.key(Key::Tab);
    fixture.key(Key::Return);
    assert_eq!(fixture.app.active_skills.len(), 1);
    assert_eq!(fixture.app.active_skills[0].name, "navis");
    assert!(!fixture.app.running);
}

#[test]
fn editing_resets_the_selection_and_closes_the_menu_on_no_match() {
    let mut fixture = World::new(&["navis", "nada"]);
    type_text(&mut fixture.app, "/na");
    fixture.key(Key::Down);
    type_text(&mut fixture.app, "/zz");
    assert!(fixture.app.composer.skill_suggestions.is_empty());
    type_text(&mut fixture.app, "/na");
    assert_eq!(
        fixture.app.composer.selected_skill_index, 0,
        "an edit resets the selection"
    );
}

#[test]
fn escape_clears_the_composer_and_closes_the_skill_menu() {
    let mut fixture = World::new(&["navis"]);
    type_text(&mut fixture.app, "/na");
    assert!(!fixture.app.composer.skill_suggestions.is_empty());
    fixture.key(Key::Escape);
    assert!(fixture.app.composer.skill_suggestions.is_empty());
    assert!(fixture.app.composer.text.is_empty());
}

#[test]
fn skill_menu_uses_a_cached_catalog_not_a_scan_per_edit() {
    let mut fixture = World::new(&["navis"]);
    fixture.skills.clear();
    type_text(&mut fixture.app, "/na");
    assert_eq!(
        fixture.app.composer.skill_suggestions.len(),
        1,
        "catalog is cached at construction; edits must not rescan"
    );
}

#[test]
fn skill_menu_selection_clamps_at_both_list_edges() {
    let mut fixture = World::new(&["navis", "nada"]);
    type_text(&mut fixture.app, "/na");
    assert_eq!(fixture.app.composer.skill_suggestions.len(), 2);
    for _ in 0..5 {
        fixture.key(Key::Down);
    }
    assert_eq!(
        fixture.app.composer.selected_skill_index, 1,
        "Down clamps at the last row"
    );
    for _ in 0..5 {
        fixture.key(Key::Up);
    }
    assert_eq!(
        fixture.app.composer.selected_skill_index, 0,
        "Up clamps at the first row"
    );
    assert_eq!(
        fixture.app.composer.skill_suggestions.len(),
        2,
        "clamping must not dismiss the menu"
    );
}

#[test]
fn tab_completes_the_highlighted_row_not_the_first() {
    let mut fixture = World::new(&["navis", "nada"]);
    type_text(&mut fixture.app, "/na");
    assert_eq!(fixture.app.composer.skill_suggestions.len(), 2);
    fixture.key(Key::Down);
    assert_eq!(
        fixture.app.composer.selected_skill_index, 1,
        "Down moves to the second row"
    );
    let first = format!("/{} ", fixture.app.composer.skill_suggestions[0].0);
    let expected = format!("/{} ", fixture.app.composer.skill_suggestions[1].0);
    fixture.key(Key::Tab);
    assert_eq!(
        fixture.app.composer.text, expected,
        "Tab completes the highlighted row"
    );
    assert_ne!(
        fixture.app.composer.text, first,
        "Tab must not complete row 0 after Down"
    );
    assert!(!fixture.app.running, "Tab must not submit");
    assert!(
        fixture.app.active_skills.is_empty(),
        "Tab must not activate a skill"
    );
}

#[test]
fn draw_path_serves_the_menu_from_cached_state_without_rescanning() {
    let mut fixture = World::new(&["navis"]);
    type_text(&mut fixture.app, "/na");
    fixture.skills.clear();
    let rows = fixture.live();
    let menu_rows = rows.iter().filter(|row| row.contains("/navis")).count();
    assert_eq!(
        menu_rows, 1,
        "live_region must paint the menu from the cached catalog even after the skills dir is gone"
    );
}

#[test]
fn qualified_skill_name_activates_instead_of_starting_a_goal_run() {
    let mut fixture = World::new(&["spellcraft:navis"]);
    type_text(&mut fixture.app, "/spellcraft:navis");
    fixture.key(Key::Return);
    assert_eq!(
        fixture.app.active_skills.len(),
        1,
        "/spellcraft:navis must enable the skill, not run it as a goal"
    );
    assert_eq!(fixture.app.active_skills[0].name, "spellcraft:navis");
    assert!(
        !fixture.app.running,
        "activation must not start a prompt run"
    );
}

#[test]
fn direct_activation_matches_catalog_case_insensitively() {
    let mut fixture = World::new(&["Navis"]);
    fixture.app.composer.text = "/navis".to_string();
    fixture.submit();
    assert_eq!(
        fixture.app.active_skills.len(),
        1,
        "lowercase /navis must reach the catalog name Navis"
    );
    assert!(
        fixture.app.active_skills[0]
            .name
            .eq_ignore_ascii_case("navis"),
        "activation must use the canonical catalog spelling"
    );
}

#[test]
fn non_skill_slash_text_still_falls_through_to_the_goal_run() {
    let mut fixture = World::new(&["navis"]);
    // run_goal fails fast (before spawning a session) when the active
    // inference profile is unknown; the reported error is the observable
    // proof that path-like slash text still reaches the goal-run path.
    fixture.refusal = Some("unknown inference profile".to_string());
    type_text(&mut fixture.app, "/usr/bin/env");
    fixture.submit();
    assert!(
        fixture.app.active_skills.is_empty(),
        "a path-like token is not a skill"
    );
    assert!(!fixture.app.running);
    assert!(
        matches!(
            fixture.app.feed.cells.first(),
            Some(TranscriptEntry::Goal(goal)) if goal.text == "/usr/bin/env"
        ),
        "the token must fall through to run_goal, which records it as a goal"
    );
    assert!(
        fixture.app.feed.cells
            .iter()
            .any(|entry| matches!(entry, TranscriptEntry::Error(_))),
        "run_goal reports the unresolvable inference profile as an error"
    );
}

#[test]
fn dispatching_a_skill_with_arguments_errors_instead_of_activating() {
    let mut fixture = World::new(&["navis"]);
    fixture.dispatch("navis", "extra");
    assert!(
        fixture.app.active_skills.is_empty(),
        "a skill dispatched with arguments must not activate"
    );
    assert!(!fixture.app.running);
    assert!(
        fixture.app.feed.cells
            .iter()
            .any(|entry| matches!(entry, TranscriptEntry::Error(_))),
        "the dispatch must report an unknown-command error, not drop the args silently"
    );
    assert!(
        fixture.app.feed.cells
            .iter()
            .all(|entry| !matches!(entry, TranscriptEntry::Skill(_))),
        "no skill activation may be recorded"
    );
}

#[test]
fn enter_while_running_queues_instead_of_starting_a_second_run() {
    let mut fixture = World::new(&[]);
    fixture.app.running = true;
    fixture.app.composer.text = "next goal".to_string();
    fixture.key(Key::Return);
    assert_eq!(fixture.app.queued_prompts.len(), 1);
    assert_eq!(fixture.app.queued_prompts[0], "next goal");
    assert!(
        fixture.app.composer.text.is_empty(),
        "the composer clears once queued"
    );
    assert!(fixture.started.is_empty(), "queuing must not start a run");
    assert!(
        fixture.inbox.is_empty(),
        "a queued prompt must not steer the live run"
    );
}

#[test]
fn queued_prompts_stay_out_of_the_timeline() {
    let mut fixture = World::new(&[]);
    fixture.app.running = true;
    fixture.app.composer.text = "next goal".to_string();
    fixture.key(Key::Return);
    assert!(
        !fixture.app.feed.cells.iter().chain(fixture.app.feed.pending_cells.iter()).any(
            |entry| matches!(entry, TranscriptEntry::Info(note) if note.text.contains("queued"))
        ),
        "the queue is listed above the composer, never logged as history"
    );
}

#[test]
fn ctrl_s_on_an_empty_composer_steers_with_the_whole_queue_and_flushes_it() {
    let mut fixture = World::new(&[]);
    fixture.app.running = true;
    fixture.app.composer.text = "first".to_string();
    fixture.key(Key::Return);
    fixture.app.composer.text = "second".to_string();
    fixture.key(Key::Return);
    assert_eq!(fixture.app.queued_prompts.len(), 2);

    fixture.key(Key::Ctrl('s'));

    assert!(
        fixture.app.queued_prompts.is_empty(),
        "an empty steer flushes the whole queue"
    );
    let raw = fixture.inbox.clone();
    let texts: Vec<String> = raw
        .lines()
        .map(|line| {
            serde_json::from_str::<serde_json::Value>(line).unwrap()["text"]
                .as_str()
                .unwrap()
                .to_string()
        })
        .collect();
    assert_eq!(
        texts,
        vec!["first", "second"],
        "every queued message steers, in order"
    );
    assert!(
        fixture.app.feed.cells.iter().any(
            |entry| matches!(entry, TranscriptEntry::Info(note) if note.text.contains("2 queued messages"))
        ),
        "the steer is reported once"
    );
}

#[test]
fn ctrl_s_with_typed_text_steers_only_that_text_and_keeps_the_queue() {
    let mut fixture = World::new(&[]);
    fixture.app.running = true;
    fixture.app.composer.text = "queued".to_string();
    fixture.key(Key::Return);
    fixture.app.composer.text = "steer me now".to_string();
    fixture.key(Key::Ctrl('s'));

    assert_eq!(
        fixture.app.queued_prompts.len(),
        1,
        "the queue is untouched"
    );
    assert_eq!(fixture.app.queued_prompts[0], "queued");
    let raw = fixture.inbox.clone();
    let lines: Vec<&str> = raw.lines().collect();
    assert_eq!(lines.len(), 1);
    let parsed: serde_json::Value = serde_json::from_str(lines[0]).unwrap();
    assert_eq!(parsed["text"], "steer me now");
    assert!(parsed["at"].as_str().is_some(), "{parsed}");
    assert!(fixture.app.composer.text.is_empty());
}

#[test]
fn ctrl_s_while_running_with_an_empty_queue_steers_the_typed_message() {
    let mut fixture = World::new(&[]);
    fixture.app.running = true;
    fixture.app.composer.text = "steer me now".to_string();
    fixture.key(Key::Ctrl('s'));
    let raw = fixture.inbox.clone();
    let parsed: serde_json::Value = serde_json::from_str(raw.lines().next().unwrap()).unwrap();
    assert_eq!(parsed["text"], "steer me now");
    assert!(fixture.app.composer.text.is_empty());
    assert!(fixture.app.queued_prompts.is_empty());
}

#[test]
fn ctrl_s_with_nothing_to_steer_reports_it_and_writes_no_inbox() {
    let mut fixture = World::new(&[]);
    fixture.app.running = true;
    fixture.key(Key::Ctrl('s'));
    assert!(fixture.inbox.is_empty());
    assert!(
        fixture.app.feed.cells
            .iter()
            .any(|entry| matches!(entry, TranscriptEntry::Info(note) if note.text.contains("nothing to steer"))),
        "an empty steer must say so"
    );
}

#[test]
fn run_end_drains_the_queue_into_the_next_goal() {
    let mut fixture = World::new(&[]);
    fixture.app.running = true;
    fixture.app.composer.text = "queued goal".to_string();
    fixture.key(Key::Return);
    fixture.app.on_run_done(RunResult::Failed("boom".to_string()));
    fixture.perform();
    assert!(
        fixture.app.queued_prompts.is_empty(),
        "the run ending drains the queue"
    );
    assert!(
        fixture.app.feed.cells.iter().any(
            |entry| matches!(entry, TranscriptEntry::Goal(goal) if goal.text == "queued goal")
        ),
        "the queued prompt becomes the next goal"
    );
}

#[test]
fn up_recalls_newest_first_then_older_and_clamps() {
    let mut fixture = World::new(&[]);
    type_text(&mut fixture.app, "first goal");
    fixture.submit();
    type_text(&mut fixture.app, "second goal");
    fixture.submit();
    assert_eq!(fixture.app.prompt_history.len(), 2);
    fixture.key(Key::Up);
    assert_eq!(fixture.app.composer.text, "second goal");
    fixture.key(Key::Up);
    assert_eq!(fixture.app.composer.text, "first goal");
    fixture.key(Key::Up);
    assert_eq!(fixture.app.composer.text, "first goal", "clamps at oldest");
}

#[test]
fn up_on_a_wrapped_continuation_line_moves_the_cursor_and_does_not_recall() {
    let mut fixture = World::new(&[]);
    fixture.app.cols = 20;
    type_text(&mut fixture.app, "recorded goal");
    fixture.submit();
    let wrapped = "aaaa bbbb cccc dddd eeee";
    type_text(&mut fixture.app, wrapped);
    // Body width 17 at 20 columns: the draft wraps into "aaaa bbbb cccc " +
    // the tail, so the end-of-text cursor sits on the second visual line.
    assert_eq!(composer_text_width(20), 17);
    assert_eq!(composer_lines(wrapped, 17), vec![0..15, 15..24]);
    fixture.key(Key::Up);
    assert_eq!(fixture.app.composer.text, wrapped, "no recall from a lower line");
    assert!(!fixture.app.prompt_history.is_browsing());
    assert_eq!(fixture.app.composer.cursor, 9, "same column on the line above");

    // From the top visual line the same key recalls the older prompt.
    fixture.app.composer.apply_edit(wrapped.to_string(), 3);
    fixture.key(Key::Up);
    assert_eq!(fixture.app.composer.text, "recorded goal");
}

#[test]
fn up_on_a_lower_line_of_a_multiline_draft_moves_instead_of_recalling() {
    let mut fixture = World::new(&[]);
    fixture.app.cols = 40;
    type_text(&mut fixture.app, "recorded goal");
    fixture.submit();
    let draft = "first line\nsecond line";
    type_text(&mut fixture.app, draft);
    fixture.key(Key::Up);
    assert_eq!(fixture.app.composer.text, draft, "no recall from the second line");
    assert!(!fixture.app.prompt_history.is_browsing());
    assert_eq!(fixture.app.composer.cursor, 10, "column clamped to the shorter line");

    fixture.key(Key::Up);
    assert_eq!(fixture.app.composer.text, "recorded goal", "top line recalls");
}

#[test]
fn down_moves_within_a_recalled_entry_before_stepping_newer() {
    let mut fixture = World::new(&[]);
    fixture.app.cols = 40;
    type_text(&mut fixture.app, "newest line");
    fixture.submit();
    let older = "alpha\nbeta\ngamma";
    type_text(&mut fixture.app, older);
    fixture.submit();
    type_text(&mut fixture.app, "unsent draft");

    fixture.key(Key::Up);
    assert_eq!(fixture.app.composer.text, older);
    // Cursor at the end of "alpha": Down stays inside the entry.
    fixture.app.composer.apply_edit(older.to_string(), 5);
    fixture.key(Key::Down);
    assert_eq!(fixture.app.composer.text, older, "still inside the recalled entry");
    assert_eq!(fixture.app.composer.cursor, 10, "one visual line down");
    fixture.key(Key::Down);
    assert_eq!(fixture.app.composer.text, older, "still inside the recalled entry");
    assert_eq!(fixture.app.composer.cursor, 15, "second line down, column clamped");

    // On the last visual line Down leaves the entry: this entry IS the
    // newest, so it restores the exact draft in one step.
    fixture.key(Key::Down);
    assert_eq!(fixture.app.composer.text, "unsent draft", "exact draft restored");
    fixture.key(Key::Down);
    assert_eq!(fixture.app.composer.text, "unsent draft", "browsing ended: no-op");
}

#[test]
fn down_restores_exact_draft_and_noops_outside_browsing() {
    let mut fixture = World::new(&[]);
    type_text(&mut fixture.app, "recorded goal");
    fixture.submit();
    type_text(&mut fixture.app, "unsent draft");
    fixture.key(Key::Down);
    assert_eq!(fixture.app.composer.text, "unsent draft", "no-op outside browsing");
    fixture.key(Key::Up);
    assert_eq!(fixture.app.composer.text, "recorded goal");
    fixture.key(Key::Down);
    assert_eq!(fixture.app.composer.text, "unsent draft", "exact draft restored");
    fixture.key(Key::Down);
    assert_eq!(fixture.app.composer.text, "unsent draft", "browsing ended");
}

#[test]
fn recalled_prompt_edits_and_resends_through_enter_path() {
    let mut fixture = World::new(&[]);
    type_text(&mut fixture.app, "original wording");
    fixture.submit();
    fixture.key(Key::Up);
    assert_eq!(fixture.app.composer.text, "original wording");
    type_text(&mut fixture.app, "edited wording");
    fixture.submit();
    assert_eq!(fixture.app.prompt_history.len(), 2);
    fixture.key(Key::Up);
    assert_eq!(fixture.app.composer.text, "edited wording");
    fixture.key(Key::Up);
    assert_eq!(fixture.app.composer.text, "original wording", "stored entry intact");
}

#[test]
fn repeated_up_walks_older_through_multiline_entries() {
    let mut fixture = World::new(&[]);
    type_text(&mut fixture.app, "newest single line");
    fixture.submit();
    let older_multiline = "older prompt\nwith a second line";
    type_text(&mut fixture.app, older_multiline);
    fixture.submit();
    type_text(&mut fixture.app, "draft being typed");

    fixture.key(Key::Up);
    assert_eq!(fixture.app.composer.text, older_multiline, "first Up recalls newest");
    // Recall leaves the cursor at the end of the multiline entry, which is
    // its LAST visual line: one Up moves to the first line before the walk
    // continues older.
    fixture.key(Key::Up);
    assert_eq!(
        fixture.app.composer.text, older_multiline,
        "second Up moves inside the entry"
    );
    assert_eq!(
        fixture.app.composer.cursor, 12,
        "top line, column clamped to its end"
    );
    fixture.key(Key::Up);
    assert_eq!(
        fixture.app.composer.text, "newest single line",
        "Up from the first line walks older"
    );
    fixture.key(Key::Up);
    assert_eq!(fixture.app.composer.text, "newest single line", "clamped at oldest");

    fixture.key(Key::Down);
    assert_eq!(fixture.app.composer.text, older_multiline, "Down steps newer");
    // A recalled multiline entry leaves the cursor on its last visual line,
    // so the next Down restores the exact draft.
    fixture.key(Key::Down);
    assert_eq!(
        fixture.app.composer.text, "draft being typed",
        "exact draft restored"
    );
}

#[test]
fn arrows_respect_multiline_boundaries() {
    let mut fixture = World::new(&[]);
    type_text(&mut fixture.app, "old prompt");
    fixture.submit();
    let multiline = "line one\nline two";
    type_text(&mut fixture.app, multiline);
    fixture.key(Key::Up);
    assert_eq!(fixture.app.composer.text, multiline, "cursor on line two: no recall");
    fixture.key(Key::Down);
    assert_eq!(fixture.app.composer.text, multiline, "no browsing was started");
    fixture.app.composer.apply_edit(multiline.to_string(), 0);
    fixture.key(Key::Up);
    assert_eq!(fixture.app.composer.text, "old prompt", "first line: recall");
    fixture.key(Key::Down);
    assert_eq!(fixture.app.composer.text, multiline, "exact draft restored");
    type_text(&mut fixture.app, "alpha\nbeta");
    fixture.submit();
    fixture.app.composer.apply_edit(multiline.to_string(), 0);
    fixture.key(Key::Up);
    assert_eq!(fixture.app.composer.text, "alpha\nbeta");
    // While browsing, Down first walks the cursor down the recalled entry;
    // only from its last visual line does it step newer and restore the
    // exact draft.
    fixture.app.composer.apply_edit("alpha\nbeta".to_string(), 2);
    fixture.key(Key::Down);
    assert_eq!(
        fixture.app.composer.text, "alpha\nbeta",
        "browsing Down mid-entry: stays inside"
    );
    assert_eq!(fixture.app.composer.cursor, 8, "second visual line, column kept");
    fixture.key(Key::Down);
    assert_eq!(
        fixture.app.composer.text, multiline,
        "last line steps newer: draft restored"
    );
    fixture.key(Key::Down);
    assert_eq!(fixture.app.composer.text, multiline, "browsing ended: Down no-op");
}

#[test]
fn menu_arrows_take_precedence_over_history() {
    let mut fixture = World::new(&["navis"]);
    type_text(&mut fixture.app, "recorded goal");
    fixture.submit();
    type_text(&mut fixture.app, "/na");
    assert_eq!(fixture.app.composer.skill_suggestions.len(), 1);
    fixture.key(Key::Up);
    assert_eq!(fixture.app.composer.text, "/na", "menu open: no recall");
    assert_eq!(fixture.app.composer.selected_skill_index, 0);
    fixture.key(Key::Down);
    assert_eq!(fixture.app.composer.text, "/na", "menu open: no recall");
    assert_eq!(fixture.app.composer.selected_skill_index, 0);
}

#[test]
fn submit_records_goals_once_but_not_blank_or_commands() {
    let mut fixture = World::new(&[]);
    type_text(&mut fixture.app, "real goal");
    fixture.submit();
    assert_eq!(fixture.app.prompt_history.len(), 1);
    type_text(&mut fixture.app, "/help");
    fixture.submit();
    assert_eq!(
        fixture.app.prompt_history.len(),
        1,
        "slash command not recorded"
    );
    type_text(&mut fixture.app, "   ");
    fixture.submit();
    assert_eq!(fixture.app.prompt_history.len(), 1, "blank not recorded");
    type_text(&mut fixture.app, "real goal");
    fixture.submit();
    assert_eq!(fixture.app.prompt_history.len(), 1, "consecutive duplicate");
}

#[test]
fn switch_session_drops_browsing_and_draft_but_keeps_entries() {
    let mut fixture = World::new(&[]);
    type_text(&mut fixture.app, "session one goal");
    fixture.submit();
    type_text(&mut fixture.app, "pending draft");
    fixture.key(Key::Up);
    assert_eq!(fixture.app.composer.text, "session one goal");
    fixture.switch_to("sess-history-two");
    fixture.key(Key::Down);
    assert_eq!(
        fixture.app.composer.text, "session one goal",
        "no draft restored from the previous session"
    );
    assert_eq!(fixture.app.prompt_history.len(), 1, "entries kept");
}

/// A "select all that apply" question: same shape, `multiple: true`.
fn multiple_question(
    header: &str,
    prompt: &str,
    options: &[(&str, &str)],
    allow_other: bool,
) -> HarnessSurveyQuestion {
    let mut question = question(header, prompt, options, allow_other);
    question.multiple = true;
    question
}

fn multiple_survey() -> QuestionSurvey {
    QuestionSurvey {
        questions: vec![multiple_question(
            "Scope",
            "Which parts should change?",
            &[
                ("Docs", "update the readme"),
                ("Picker", "the survey overlay"),
                ("Tests", "new coverage"),
            ],
            true,
        )],
    }
}

fn question(
    header: &str,
    prompt: &str,
    options: &[(&str, &str)],
    allow_other: bool,
) -> HarnessSurveyQuestion {
    HarnessSurveyQuestion {
        header: header.to_string(),
        question: prompt.to_string(),
        options: options
            .iter()
            .map(|(label, description)| HarnessSurveyOption {
                label: label.to_string(),
                description: description.to_string(),
            })
            .collect(),
        allow_other,
        multiple: false,
    }
}

fn survey() -> QuestionSurvey {
    QuestionSurvey {
        questions: vec![
            question(
                "Approach",
                "Poll or channel?",
                &[("Poll", "watch the file"), ("Channel", "read the pipe")],
                true,
            ),
            question(
                "Scope",
                "Include tests?",
                &[("Yes", "with tests"), ("No", "without")],
                false,
            ),
        ],
    }
}

#[test]
fn question_overlays_render_through_the_survey_layout() {
    let mut fixture = World::new(&[]);
    fixture.begin_survey(survey());
    let rows = plain(&fixture.live());
    assert!(rows
        .iter()
        .any(|row| row.contains("Approach") && row.contains("question 1 of 2")));
    assert!(rows.iter().any(|row| row.contains("Poll or channel?")));
    assert!(rows.iter().any(|row| row.contains("❯ 1. Poll")));
    assert!(rows.iter().any(|row| row.contains("   watch the file")));
    assert!(rows.iter().any(|row| row.contains("3. Type something.")));
    assert!(rows.iter().any(|row| row.contains("4. Chat about this")));
    assert!(rows
        .iter()
        .any(|row| row
            .contains("Enter to select · ↑/↓ to navigate · 1-9 to jump · Esc to cancel")));
}

#[test]
fn survey_waiting_flips_the_pane_title_between_question_mark_and_spinner() {
    let mut fixture = World::new(&[]);
    // A live run with a spinning title, then the ask_user survey arrives.
    fixture.app.titles.pane_title = Some(PaneTitle::new("add authentication"));
    assert!(fixture.app.titles.pane_title
        .as_mut()
        .expect("pane title")
        .set_busy(true, NOW)
        .is_some());
    fixture.begin_survey(survey());
    assert!(
        fixture.app.titles.pane_title
            .as_ref()
            .expect("pane title")
            .is_waiting(),
        "a pending survey shows the waiting marker instead of the spinner"
    );
    // Esc dismisses the survey (nothing written): the spinner returns.
    fixture.key(Key::Escape);
    assert!(
        !fixture.app.titles.pane_title
            .as_ref()
            .expect("pane title")
            .is_waiting(),
        "dismissing the survey resumes the spinner"
    );
}

#[test]
fn a_digit_key_confirms_that_option_immediately() {
    let mut fixture = World::new(&[]);
    fixture.begin_survey(survey());
    fixture.key(Key::Text("2".to_string()));
    let state = fixture.app.survey.as_ref().expect("survey still open");
    assert_eq!(state.current, 1, "advanced to the next question");
    assert_eq!(state.answers.len(), 1);
    assert_eq!(state.answers[0].choice.as_deref(), Some("Channel"));
    // Question 2 has no allow_other, so its chat row is the last item.
    let rows = plain(&fixture.live());
    assert!(rows
        .iter()
        .any(|row| row.contains("Scope") && row.contains("question 2 of 2")));
    assert!(rows.iter().any(|row| row.contains("3. Chat about this")));
}

#[test]
fn choosing_chat_then_submitting_writes_a_chat_record_and_clears_the_survey() {
    let mut fixture = World::new(&[]);
    fixture.begin_survey(survey());
    // The chat row is last: 2 listed options + "Type something." + chat.
    fixture.key(Key::Text("4".to_string()));
    assert!(fixture.app.overlay.is_none(), "the overlay closes");
    assert!(fixture.app.survey
        .as_ref()
        .is_some_and(|state| state.chat_mode));
    assert!(fixture.app.feed.cells.iter().any(|entry| matches!(
        entry,
        TranscriptEntry::Info(note)
            if note.text.contains("answers all 2 questions")
                && note.text.contains("Poll or channel?")
                && note.text.contains("Include tests?")
                && note.text.contains("watch the file")
    )));

    type_text(&mut fixture.app, "use the channel, no tests");
    fixture.submit();
    assert!(fixture.app.survey.is_none(), "the survey clears");
    assert!(fixture.app.feed.cells.iter().any(|entry| matches!(
        entry,
        TranscriptEntry::Info(note) if note.text == "chat reply recorded — the run continues"
    )));
    let written = fixture.answers.clone();
    assert!(
        written.contains("\"chat\":\"use the channel, no tests\""),
        "{written}"
    );
    assert!(written.contains("\"answers\":[]"), "{written}");
}

#[test]
fn escape_in_chat_mode_dismisses_the_survey_without_writing() {
    let mut fixture = World::new(&[]);
    fixture.begin_survey(survey());
    fixture.key(Key::Text("4".to_string()));
    fixture.key(Key::Escape);
    assert!(fixture.app.survey.is_none());
    assert!(fixture.answers.is_empty(), "a dismissal writes nothing");
}

#[test]
fn a_failed_chat_write_keeps_chat_mode_and_restores_the_reply() {
    let mut fixture = World::new(&[]);
    fixture.begin_survey(survey());
    fixture.key(Key::Text("1".to_string()));
    fixture.key(Key::Text("3".to_string()));
    assert!(fixture.app.survey
        .as_ref()
        .is_some_and(|state| state.chat_mode));
    // From here every append fails.
    fixture.answers_blocked = true;
    type_text(&mut fixture.app, "still thinking");
    fixture.submit();
    let state = fixture.app.survey
        .as_ref()
        .expect("survey survives the failure");
    assert!(state.chat_mode, "chat mode stays on for the retry");
    assert_eq!(
        fixture.app.composer.text, "still thinking",
        "the reply is back in the composer"
    );
    assert!(fixture.app.feed.cells.iter().any(|entry| matches!(
        entry,
        TranscriptEntry::Error(note) if note.text.contains("press Enter to retry")
    )));
    // Unblock and retry with Enter: the same text lands as the chat record.
    fixture.answers_blocked = false;
    fixture.key(Key::Return);
    assert!(fixture.app.survey.is_none(), "the retry clears the survey");
    let written = fixture.answers.clone();
    assert!(written.contains("\"chat\":\"still thinking\""), "{written}");
}

#[test]
fn chat_mode_typing_through_on_key_reaches_the_composer_and_enter_submits() {
    let mut fixture = World::new(&[]);
    fixture.begin_survey(survey());
    fixture.key(Key::Text("4".to_string()));
    for ch in ["u", "s", "e", " ", "p", "o", "l", "l"] {
        fixture.key(Key::Text(ch.to_string()));
    }
    assert_eq!(
        fixture.app.composer.text, "use poll",
        "typed text reaches the composer in chat mode"
    );
    fixture.key(Key::Backspace);
    assert_eq!(fixture.app.composer.text, "use pol");
    fixture.key(Key::Return);
    assert!(
        fixture.app.survey.is_none(),
        "Enter records the reply and clears the survey"
    );
    let written = fixture.answers.clone();
    assert!(written.contains("\"chat\":\"use pol\""), "{written}");
}

#[test]
fn a_multiple_question_renders_marks_a_confirm_row_and_the_toggle_footer() {
    let mut fixture = World::new(&[]);
    fixture.begin_survey(multiple_survey());
    let rows = plain(&fixture.live());
    assert!(
        rows.iter().any(|row| row.contains("[ ] 1. Docs")),
        "{rows:?}"
    );
    assert!(
        rows.iter().any(|row| row.contains("❯ [ ] 1. Docs")),
        "{rows:?}"
    );
    // Three options + confirm + "Type something." + chat.
    assert!(
        rows.iter().any(|row| row.contains("4. Confirm selection")),
        "{rows:?}"
    );
    assert!(
        rows.iter().any(|row| row.contains("5. Type something.")),
        "{rows:?}"
    );
    assert!(
        rows.iter().any(|row| row.contains("6. Chat about this")),
        "{rows:?}"
    );
    assert!(
        rows.iter()
            .any(|row| row.contains("Space toggles · Enter confirms the selection")),
        "{rows:?}"
    );
}

#[test]
fn space_marks_options_and_the_confirm_row_records_them_joined() {
    let mut fixture = World::new(&[]);
    fixture.begin_survey(multiple_survey());
    // Space on the highlighted row marks it, then Down+Space marks a second.
    fixture.key(Key::Text(" ".to_string()));
    fixture.key(Key::Down);
    fixture.key(Key::Down);
    fixture.key(Key::Text(" ".to_string()));
    let rows = plain(&fixture.live());
    assert!(
        rows.iter().any(|row| row.contains("[x] 1. Docs")),
        "{rows:?}"
    );
    assert!(
        rows.iter().any(|row| row.contains("[ ] 2. Picker")),
        "{rows:?}"
    );
    assert!(
        rows.iter().any(|row| row.contains("[x] 3. Tests")),
        "{rows:?}"
    );
    // Down to the confirm row (index 3) and Enter: one joined choice.
    fixture.key(Key::Down);
    fixture.key(Key::Return);
    assert!(
        fixture.app.survey.is_none(),
        "the last question finishes the survey"
    );
    let written = fixture.answers.clone();
    assert!(written.contains("\"choice\":\"Docs, Tests\""), "{written}");
}

#[test]
fn confirming_with_nothing_marked_keeps_the_survey_open() {
    let mut fixture = World::new(&[]);
    fixture.begin_survey(multiple_survey());
    fixture.key(Key::Down);
    fixture.key(Key::Down);
    fixture.key(Key::Down);
    fixture.key(Key::Return);
    let state = fixture.app.survey.as_ref().expect("survey stays open");
    assert!(state.answers.is_empty(), "nothing is recorded");
    assert!(fixture.app.feed.cells.iter().any(|entry| matches!(
        entry,
        TranscriptEntry::Info(note)
            if note.text == "mark at least one option with space before confirming"
    )));
    assert!(fixture.answers.is_empty(), "nothing is written");
}

#[test]
fn space_is_a_no_op_on_a_single_choice_question() {
    let mut fixture = World::new(&[]);
    fixture.begin_survey(survey());
    fixture.key(Key::Text(" ".to_string()));
    let state = fixture.app.survey.as_ref().expect("survey still open");
    assert_eq!(
        state.current, 0,
        "space never advances a single-choice survey"
    );
    assert!(state.answers.is_empty());
}

#[test]
fn working_line_sits_immediately_above_the_composer_while_running() {
    let mut fixture = World::new(&[]);
    fixture.app.running = true;
    fixture.app.run_started_at = Some(NOW - 65_000);
    let rows = plain(&fixture.live());
    let index = rows
        .iter()
        .position(|row| row.contains("working for 1m 05s"))
        .expect("a live run must paint the activity line");
    assert!(
        SPINNER_FRAMES
            .iter()
            .any(|frame| rows[index].starts_with(frame)),
        "the line starts with a spinner frame: {:?}",
        rows[index]
    );
    assert!(
        rows[index + 1].starts_with('─') && rows[index + 2].contains('❯'),
        "the activity line belongs directly above the composer box: {:?}",
        &rows[index..=index + 2]
    );
}

#[test]
fn no_working_line_is_painted_when_idle() {
    let mut fixture = World::new(&[]);
    // A stale start time with no run in flight must paint nothing.
    fixture.app.run_started_at = Some(NOW - 3_000);
    let rows = plain(&fixture.live());
    assert!(
        !rows.iter().any(|row| row.contains("working for")),
        "{rows:?}"
    );
}

#[test]
fn finish_run_clears_the_activity_line_state() {
    let mut fixture = World::new(&[]);
    fixture.app.running = true;
    fixture.app.run_started_at = Some(NOW);
    fixture.app.activity_next_tick = Some(NOW);
    fixture.finish_run();
    assert!(fixture.app.run_started_at.is_none());
    assert!(fixture.app.activity_next_tick.is_none());
    let rows = plain(&fixture.live());
    assert!(!rows.iter().any(|row| row.contains("working for")));
}

#[test]
fn activity_tick_stops_rearming_once_the_run_ends() {
    let mut fixture = World::new(&[]);
    fixture.app.running = true;
    fixture.app.activity_next_tick = Some(NOW);
    fixture.finish_run();
    assert!(
        fixture.app.activity_next_tick.is_none(),
        "an idle composer must not keep repainting for the spinner"
    );
}

#[test]
fn escape_stops_the_run_and_its_in_flight_commands() {
    let mut fixture = World::new(&[]);
    fixture.app.running = true;
    fixture.app.abortable = true;
    // Stands in for a running command: esc must stop it, not merely flip the
    // flag of the run.
    fixture.in_flight = 1;

    fixture.key(Key::Escape);

    assert!(fixture.aborted, "esc must abort the run");
    assert!(
        fixture.in_flight == 0,
        "esc must stop the in-flight command, not only signal the harness"
    );
    assert!(
        fixture.app.running,
        "the run ends when the harness reports back, not on the keypress"
    );
    // The stop is visible: an operator who hits esc must see that the
    // running command was killed rather than infer it from silence.
    let note = fixture.app.feed.pending_cells
        .iter()
        .chain(fixture.app.feed.cells.iter())
        .find_map(|entry| match entry {
            TranscriptEntry::Info(note) if note.text.contains("in-flight command") => {
                Some(note.text.clone())
            }
            _ => None,
        })
        .expect("the killed command is reported in the transcript");
    assert!(note.contains("aborting the run"), "unexpected note: {note}");
}

fn event(
    kind: HarnessEventType,
    iteration: i64,
    detail: &str,
    tool: Option<&str>,
) -> TranscriptEntry {
    TranscriptEntry::Event(TranscriptEventEntry {
        at: "2026-01-01T00:00:00Z".to_string(),
        data: tool.map(|name| HarnessEventData {
            tool_name: Some(name.to_string()),
            ..Default::default()
        }),
        detail: detail.to_string(),
        goal_id: "g".to_string(),
        iteration,
        kind,
    })
}

/// The exact exchange the goal names: a cycle transition, a tool call, a
/// warning and the model's answer.
fn one_cycle() -> Vec<TranscriptEntry> {
    vec![
        TranscriptEntry::Goal(TranscriptGoalEntry {
            at: "2026-01-01T00:00:00Z".to_string(),
            goal_id: "g".to_string(),
            images: Vec::new(),
            mentions: Vec::new(),
            text: "fix the flaky test".to_string(),
        }),
        event(
            HarnessEventType::IterationStart,
            1,
            "cycle 1/2 — task-1: think",
            None,
        ),
        event(
            HarnessEventType::ToolCall,
            1,
            "READ {\"path\":\"x\"}",
            Some("READ"),
        ),
        event(
            HarnessEventType::RunWarning,
            1,
            "rate limited, waiting 2s",
            None,
        ),
        event(HarnessEventType::ModelText, 1, "All done.", None),
    ]
}

fn feed(app: &mut TuiApp) -> Vec<CompactCell> {
    let cells = app.feed.compact.absorb(&one_cycle());
    app.feed.activity.remember_activity_notices(NOW, &cells);
    cells
}

/// Transient cells of a batch, exactly as `emit_static` would keep them.
fn transient_of(emitter: &mut CompactEmitter, entries: &[TranscriptEntry]) -> Vec<CompactCell> {
    emitter
        .absorb(entries)
        .into_iter()
        .filter(|cell| !is_scrollback_cell(cell))
        .collect()
}

fn warning_batch(emitter: &mut CompactEmitter, detail: &str) -> Vec<CompactCell> {
    let entries = vec![event(HarnessEventType::RunWarning, 1, detail, None)];
    let cells = transient_of(emitter, &entries);
    assert!(!cells.is_empty(), "{detail} must project one transient row");
    cells
}

fn notice_detail(cell: &CompactCell) -> String {
    match cell {
        CompactCell::Passthrough(TranscriptEntry::Event(event)) => event.detail.clone(),
        other => format!("{other:?}"),
    }
}

#[test]
fn tool_ops_and_warnings_never_settle_into_scrollback() {
    let mut fixture = World::new(&[]);
    fixture.app.running = true;
    let cells = feed(&mut fixture.app);
    let rows = plain(&projected_rows(&cells, fixture.app.cols));

    assert!(
        rows.iter().any(|row| row.contains("fix the flaky test")),
        "{rows:?}"
    );
    assert!(rows.iter().any(|row| row.contains("All done.")), "{rows:?}");
    for noise in ["cycle 1/2", "Tool called", "Tools called", "rate limited"] {
        assert!(
            !rows.iter().any(|row| row.contains(noise)),
            "{noise} leaked into scrollback: {rows:?}"
        );
    }
}

#[test]
fn transient_rows_blink_above_the_composer_then_vanish_with_the_run() {
    let mut fixture = World::new(&[]);
    fixture.app.running = true;
    fixture.app.run_started_at = Some(NOW);
    feed(&mut fixture.app);

    let live = plain(&fixture.live());
    let spinner = live
        .iter()
        .position(|row| row.contains("working for"))
        .expect("the activity line is painted while running");
    assert!(
        live.iter().any(|row| row.contains("Tool called")),
        "the folded tool summary blinks on the activity line: {live:?}"
    );
    assert!(
        live[..spinner]
            .iter()
            .any(|row| row.contains("rate limited")),
        "the newest op/warning row sits above the working line: {live:?}"
    );
    assert!(
        live[spinner + 1].starts_with('─') && live[spinner + 2].contains('❯'),
        "the transient block stays directly above the composer: {:?}",
        &live[spinner..=spinner + 2]
    );

    fixture.finish_run();
    let after = plain(&fixture.live());
    for noise in ["Tool called", "Tools called", "rate limited", "cycle 1/2"] {
        assert!(
            !after.iter().any(|row| row.contains(noise)),
            "{noise} outlived the run: {after:?}"
        );
    }
}

#[test]
fn resize_tail_budgets_only_durable_rows() {
    let mut fixture = World::new(&[]);
    let cells = fixture.app.feed.compact.absorb(&one_cycle());
    let durable = scrollback_cells(&cells);
    assert_eq!(durable.len(), 2, "goal + model text only: {durable:?}");
    assert!(durable.iter().all(is_scrollback_cell));
    // The dropped rows are the ones the activity line shows: the folded
    // tool summary, the cycle transition and the warning.
    assert_eq!(cells.len() - durable.len(), 3, "{cells:?}");
}

#[test]
fn fast_transient_batches_coalesce_behind_the_debounce_window() {
    let mut fixture = World::new(&[]);
    let app = &mut fixture.app;
    app.running = true;
    let t0 = NOW;

    let first = warning_batch(&mut app.feed.compact, "first");
    app.feed.activity.remember_activity_notices(t0, &first);
    assert_eq!(
        app.feed.activity.shown_at,
        Some(t0),
        "the first batch of a run lands immediately"
    );
    assert_eq!(notice_detail(&app.feed.activity.notices[0]), "first");

    // 100 ms later -- well inside the 500 ms window -- the new row may not
    // replace what is on screen yet.
    let soon = t0 + 100;
    let second = warning_batch(&mut app.feed.compact, "second");
    app.feed.activity.remember_activity_notices(soon, &second);
    assert_eq!(
        notice_detail(&app.feed.activity.notices[0]),
        "first",
        "a fast batch must not blink over the displayed one"
    );
    assert!(
        !app.feed.activity.settle_activity_notices(soon),
        "the window is still open"
    );

    // Deadline reached: the coalesced batch swaps in exactly once.
    assert!(app.feed.activity.settle_activity_notices(t0 + 500));
    assert_eq!(notice_detail(&app.feed.activity.notices[0]), "second");
    assert!(app.feed.activity.pending.is_empty());

    // The deadline is anchored to the swap, not pushed back by arrivals:
    // a continuous stream still updates once per window.
    let third = warning_batch(&mut app.feed.compact, "third");
    app.feed.activity.remember_activity_notices(t0 + 600, &third);
    assert_eq!(notice_detail(&app.feed.activity.notices[0]), "second");
    assert!(app.feed.activity.settle_activity_notices(t0 + 1000));
    assert_eq!(notice_detail(&app.feed.activity.notices[0]), "third");
}

#[test]
fn the_debounce_state_dies_with_the_run() {
    let mut fixture = World::new(&[]);
    let app = &mut fixture.app;
    app.running = true;
    let t0 = NOW;
    let first = warning_batch(&mut app.feed.compact, "first");
    app.feed.activity.remember_activity_notices(t0, &first);
    let queued = warning_batch(&mut app.feed.compact, "queued");
    app.feed.activity.remember_activity_notices(t0 + 50, &queued);
    assert!(!app.feed.activity.pending.is_empty(), "the batch is queued");
    app.finish_run();
    assert!(app.feed.activity.notices.is_empty(), "no row outlives the run");
    assert!(
        app.feed.activity.pending.is_empty(),
        "no queued row leaks into the next run"
    );
    assert!(
        app.feed.activity.shown_at.is_none(),
        "the next run opens a fresh window"
    );
}

#[test]
fn a_blank_row_gaps_the_status_lines_from_the_working_line() {
    let mut fixture = World::new(&[]);
    fixture.app.running = true;
    fixture.app.run_started_at = Some(NOW);
    feed(&mut fixture.app);
    let live = plain(&fixture.live());
    let spinner = live
        .iter()
        .position(|row| row.contains("working for"))
        .expect("the activity line is painted while running");
    assert!(spinner >= 2, "{live:?}");
    assert_eq!(
        live[spinner - 1],
        "",
        "one blank row separates the block from the working line: {live:?}"
    );
    assert!(
        live[..spinner - 1]
            .iter()
            .any(|row| row.contains("Tool called")),
        "the status lines stay above the gap: {live:?}"
    );
}

fn job(id: &str, tool_name: &str, title: &str) -> ChatAsyncToolJob {
    ChatAsyncToolJob {
        command: None,
        cwd: "/tmp".to_string(),
        error: None,
        exit_code: None,
        finished_at: None,
        id: id.to_string(),
        log_path: "/tmp/job.log".to_string(),
        started_at: "2026-01-01T00:00:00Z".to_string(),
        status: ChatAsyncToolJobStatus::Running,
        title: title.to_string(),
        tool_name: tool_name.to_string(),
    }
}

/// The status row the app actually paints, read off the live region.
fn status_row(world: &World) -> String {
    plain(&world.live())
        .into_iter()
        .rev()
        .find(|row| row.contains("session "))
        .expect("the status bar is painted")
}

#[test]
fn a_settled_monitor_is_handed_to_an_idle_session_as_its_next_message() {
    let mut fixture = World::with_jobs(vec![]);
    let mut settled = job("monitor-1", "MONITOR", "monitor: watch the build");
    settled.status = ChatAsyncToolJobStatus::Completed;
    settled.exit_code = Some(Some(0));
    settled.finished_at = Some("2026-01-01T00:00:05Z".to_string());
    fixture.set_jobs(vec![settled]);

    let settled = fixture.take_settled_unreported();
    let report = idle_background_reports(fixture.app.running, &settled)
        .expect("an idle session takes the settled report");
    assert!(
        report.contains("[background monitor] monitor-1"),
        "{report}"
    );
    assert!(report.contains("the signal fired"), "{report}");
    assert!(report.contains("/tmp/job.log"), "{report}");

    // Claimed exactly once: the next poll has nothing left to hand over.
    let settled = fixture.take_settled_unreported();
    assert!(idle_background_reports(fixture.app.running, &settled).is_none());
}

#[test]
fn a_live_run_keeps_its_own_background_reports() {
    let mut fixture = World::with_jobs(vec![]);
    let mut settled = job("monitor-1", "MONITOR", "monitor: watch the build");
    settled.status = ChatAsyncToolJobStatus::Failed;
    settled.error = Some("monitor timed out after 1000ms".to_string());
    fixture.set_jobs(vec![settled]);
    fixture.app.running = true;

    fixture.carry_out(Effect::HandOffJobs);
    assert!(fixture.started.is_empty());
    // Still unclaimed: the running harness drains it at its next round.
    assert_eq!(fixture.take_settled_unreported().len(), 1);
}

#[test]
fn reports_are_claimed_by_an_idle_session_only() {
    let mut settled = job("monitor-1", "MONITOR", "monitor: watch the build");
    settled.exit_code = Some(Some(0));
    let settled = vec![settled];
    assert_eq!(idle_background_reports(true, &settled), None);
    assert_eq!(idle_background_reports(false, &Vec::new()), None);
    assert_eq!(
        idle_background_reports(false, &settled).as_deref(),
        Some(
            "[background monitor] monitor-1 monitor: watch the build: the signal fired (exit 0) - full output: /tmp/job.log"
        )
    );

    let mut fixture = World::with_jobs(vec![]);
    fixture.app.running = true;
    assert!(!fixture.app.claims_reports());
    fixture.app.handoff_settled_background_jobs(&settled);
    fixture.perform();
    assert!(fixture.started.is_empty(), "the live run is not joined by another");
    fixture.app.running = false;
    assert!(fixture.app.claims_reports());
    fixture.app.handoff_settled_background_jobs(&settled);
    fixture.perform();
    assert_eq!(fixture.started.len(), 1);
}

#[test]
fn the_status_bar_counts_live_monitors_and_shells() {
    let mut fixture = World::with_jobs(vec![
        job("monitor-1", "MONITOR", "monitor: watch the build"),
        job("shell-1", "BASH_ASYNC", "cargo test --lib"),
        job("shell-2", "BASH_ASYNC", "bun test"),
    ]);
    assert!(fixture.refresh_jobs());
    assert_eq!(fixture.app.jobs.counts, (1, 2));
    let row = status_row(&fixture);
    assert!(row.contains("1 monitor · 2 shells"), "{row}");
}

#[test]
fn the_counter_ignores_settled_jobs_and_clears_when_nothing_runs() {
    let mut fixture = World::with_jobs(vec![job(
        "monitor-1",
        "MONITOR",
        "monitor: watch the build",
    )]);
    fixture.refresh_jobs();
    assert!(status_row(&fixture).contains("1 monitor"));

    // A completed and a failed job both leave the running set: only live
    // work is counted.
    let mut completed = job("shell-done", "BASH_ASYNC", "cargo test");
    completed.status = ChatAsyncToolJobStatus::Completed;
    let mut failed = job("shell-failed", "BASH_ASYNC", "bun test");
    failed.status = ChatAsyncToolJobStatus::Failed;
    fixture.set_jobs(vec![completed, failed]);
    assert!(fixture.refresh_jobs());
    assert_eq!(fixture.app.jobs.counts, (0, 0));
    let row = status_row(&fixture);
    assert!(!row.contains("monitor"), "{row}");
    assert!(!row.contains("shell"), "{row}");
}

#[test]
fn ctrl_b_opens_the_browser_over_the_running_jobs() {
    let mut fixture = World::with_jobs(vec![
        job("monitor-1", "MONITOR", "monitor: watch the build"),
        job("shell-1", "BASH_ASYNC", "cargo test --lib"),
    ]);
    fixture.key(Key::Ctrl('b'));
    let overlay = fixture.app.overlay.as_ref().expect("the browser opened");
    assert_eq!(overlay.kind, OverlayKind::Jobs);
    assert_eq!(overlay.items.len(), 2);
    assert_eq!(overlay.items[0].id, "0");
    assert!(overlay.items[0]
        .detail
        .as_deref()
        .unwrap_or("")
        .contains("monitor"));
    let rows = plain(&fixture.live()).join("\n");
    assert!(
        rows.contains("Background jobs · 1 monitor · 1 shell"),
        "{rows}"
    );
    assert!(rows.contains("monitor: watch the build"), "{rows}");

    // Esc closes it without writing anything to the transcript.
    let before = fixture.app.feed.cells.len();
    fixture.key(Key::Escape);
    assert!(fixture.app.overlay.is_none());
    assert_eq!(fixture.app.feed.cells.len(), before);
}

#[test]
fn enter_opens_the_detail_frame_and_esc_steps_back_out() {
    let mut fixture = World::with_jobs(vec![job("shell-1", "BASH_ASYNC", "cargo test --lib")]);
    fixture.dispatch("jobs", "");
    fixture.key(Key::Return);
    assert_eq!(fixture.app.jobs.detail, Some(0));
    let rows = plain(&fixture.live()).join("\n");
    assert!(rows.contains("Shell details"), "{rows}");
    assert!(rows.contains("Status: running"), "{rows}");
    assert!(rows.contains("cargo test --lib"), "{rows}");
    assert!(rows.contains("the build is still going"), "{rows}");

    // Esc drops the detail frame first, the browser second.
    fixture.key(Key::Escape);
    assert_eq!(fixture.app.jobs.detail, None);
    assert!(fixture.app.overlay.is_some());
    fixture.key(Key::Escape);
    assert!(fixture.app.overlay.is_none());
}

#[test]
fn a_job_that_settles_while_open_drops_the_stale_row() {
    let mut fixture = World::with_jobs(vec![job("shell-1", "BASH_ASYNC", "cargo test --lib")]);
    fixture.dispatch("jobs", "");
    fixture.key(Key::Return);
    assert_eq!(fixture.app.jobs.detail, Some(0));

    // The job finishes: the next refresh reads an empty running set and
    // the detail frame must not keep showing it as running.
    fixture.set_jobs(Vec::new());
    fixture.refresh_jobs();
    assert_eq!(fixture.app.jobs.detail, None);
    assert_eq!(fixture.app.jobs.counts, (0, 0));
    let rows = plain(&fixture.live()).join("\n");
    assert!(rows.contains("nothing running"), "{rows}");
}

#[test]
fn the_jobs_command_jumps_straight_into_a_row() {
    let mut fixture = World::with_jobs(vec![
        job("monitor-1", "MONITOR", "monitor: watch the build"),
        job("shell-1", "BASH_ASYNC", "cargo test --lib"),
    ]);
    fixture.dispatch("jobs", "2");
    assert_eq!(fixture.app.jobs.detail, Some(1));
    let rows = plain(&fixture.live()).join("\n");
    assert!(rows.contains("Shell details"), "{rows}");
    assert!(rows.contains("Script: cargo test --lib"), "{rows}");
}

#[test]
fn clicking_the_status_line_counter_opens_the_browser() {
    let mut fixture = World::with_jobs(vec![
        job("monitor-1", "MONITOR", "monitor: watch the build"),
        job("shell-1", "BASH_ASYNC", "cargo test --lib"),
    ]);
    assert!(fixture.refresh_jobs());
    // The live region sits at the bottom of the screen: a terminal exactly
    // as tall as the frame makes the status row the last painted one.
    let rows = fixture.live().len();
    fixture.app.rows = rows;
    let status = status_row(&fixture);
    let col = status.find("1 monitor").expect("the chip is painted") + 1;
    assert!(fixture.app.background_chip_at(col, rows, ""), "{status}");

    fixture.key(Key::Mouse(MouseEvent::Click { col, row: rows }));
    let overlay = fixture.app.overlay.as_ref().expect("the browser opened");
    assert_eq!(overlay.kind, OverlayKind::Jobs);
    assert_eq!(overlay.items.len(), 2);
    // The click opened a frame -- it never typed itself into the composer.
    assert!(fixture.app.composer.text.is_empty());
}

#[test]
fn a_click_off_the_chip_or_with_nothing_running_does_nothing() {
    let mut fixture = World::with_jobs(vec![job(
        "monitor-1",
        "MONITOR",
        "monitor: watch the build",
    )]);
    fixture.refresh_jobs();
    let rows = fixture.live().len();
    fixture.app.rows = rows;
    // The session-id field left of the chip, and the row above it.
    fixture.key(Key::Mouse(MouseEvent::Click { col: 3, row: rows }));
    fixture.key(Key::Mouse(MouseEvent::Click {
        col: 20,
        row: rows - 1,
    }));
    assert!(fixture.app.overlay.is_none());

    // Nothing running means no chip on the row, so no cell is a target.
    fixture.set_jobs(Vec::new());
    assert!(fixture.refresh_jobs());
    let rows = fixture.live().len();
    fixture.app.rows = rows;
    assert!(!fixture.app.background_chip_at(20, rows, ""));
    fixture.key(Key::Mouse(MouseEvent::Click { col: 20, row: rows }));
    assert!(fixture.app.overlay.is_none());
    assert!(fixture.app.composer.text.is_empty());
}

// `/mcp <server>` sets the switch of the run: servers that no role names.
#[test]
fn the_run_gate_spawns_servers_no_role_names_and_off_spawns_none() {
    let mut fixture = World::new(&[]);
    // `/mcp fake`: the switch names a server NO role in play mentions.
    fixture.app.mcp_run_gate = Some(vec!["fake".to_string()]);
    let names = mcp_spawn_names(Vec::new(), &fixture.app.mcp_run_gate);
    assert_eq!(names, vec!["fake".to_string()], "the switch alone names it");

    // `/mcp off`: a hard off that no role's own `mcpServers` can reopen.
    fixture.app.mcp_run_gate = Some(Vec::new());
    let off_names = mcp_spawn_names(vec!["fake".to_string()], &fixture.app.mcp_run_gate);
    assert!(
        off_names.is_empty(),
        "/mcp off spawns nothing: {off_names:?}"
    );
}

// The affordance itself: `/mcp` lists the configured servers with their
// status and toggles the switch of the run, and an unknown name never opens it.
#[test]
fn the_mcp_command_lists_servers_and_toggles_the_run_gate() {
    let mut fixture = World::new(&[]);
    fixture.mcp_servers.push(McpServer {
        name: "fake".to_string(),
        command: "fake-mcp-server".to_string(),
        args: Vec::new(),
    });

    fixture.dispatch("mcp", "");
    let listed = last_info(&fixture.app);
    assert!(listed.contains("fake"), "{listed}");
    assert!(listed.contains("fake-mcp-server"), "{listed}");
    assert!(listed.contains("role opt-in only"), "{listed}");
    assert!(fixture.app.mcp_run_gate.is_none(), "listing never changes the switch");

    fixture.dispatch("mcp", "fake");
    assert_eq!(fixture.app.mcp_run_gate, Some(vec!["fake".to_string()]));
    assert!(
        last_info(&fixture.app).contains("on for this run"),
        "{}",
        last_info(&fixture.app)
    );
    fixture.dispatch("mcp", "");
    assert!(
        last_info(&fixture.app).contains("on for this run (gate)"),
        "{}",
        last_info(&fixture.app)
    );

    // The same name toggles back off, which is exactly `/mcp off`.
    fixture.dispatch("mcp", "fake");
    assert_eq!(fixture.app.mcp_run_gate, Some(Vec::new()));
    assert!(
        last_info(&fixture.app).contains("off for this run"),
        "{}",
        last_info(&fixture.app)
    );

    fixture.dispatch("mcp", "roles");
    assert!(fixture.app.mcp_run_gate.is_none());
    assert!(
        last_info(&fixture.app).contains("each loop sees a server"),
        "{}",
        last_info(&fixture.app)
    );

    fixture.dispatch("mcp", "ghost");
    assert!(
        fixture.app.mcp_run_gate.is_none(),
        "an unknown name must not open the switch"
    );
}

// ---------------------------------------------------------------------------
// Runs, timers and the screen
// ---------------------------------------------------------------------------

fn harness_event(kind: HarnessEventType, detail: &str) -> HarnessEvent {
    HarnessEvent {
        kind,
        detail: detail.to_string(),
        iteration: 3,
        question_survey: None,
        has_answers: false,
        tool_name: None,
    }
}

fn at(fixture: &mut World, ms: u64) {
    fixture
        .app
        .set_time(NOW + ms, "2026-01-01T00:00:01.000Z".to_string());
}

fn errors(world: &World) -> Vec<String> {
    world
        .app
        .feed
        .cells
        .iter()
        .filter_map(|entry| match entry {
            TranscriptEntry::Error(note) => Some(note.text.clone()),
            _ => None,
        })
        .collect()
}

#[test]
fn a_run_that_starts_can_be_stopped_and_ends_with_its_record() {
    let mut fixture = World::new(&[]);
    fixture.refusal = None;
    fixture.dispatch("praeparare", "");
    assert!(fixture.app.running && fixture.app.abortable);
    assert_eq!(fixture.started, vec![PRAEPARARE_GOAL.to_string()]);
    fixture.app.on_run_done(RunResult::Ended {
        goal_id: "goal-1".to_string(),
        iterations: 4,
        reason: HarnessRunReason::Completed,
    });
    fixture.perform();
    assert!(!fixture.app.running && !fixture.app.abortable);
    assert!(matches!(
        fixture.app.feed.cells.last(),
        Some(TranscriptEntry::RunEnd(end)) if end.goal_id == "goal-1" && end.iterations == 4
    ));
}

#[test]
fn a_session_that_another_process_runs_says_so() {
    let mut fixture = World::new(&[]);
    fixture.app.running = true;
    fixture
        .app
        .on_run_done(RunResult::Taken("run 7 is live.".to_string()));
    fixture.perform();
    assert_eq!(
        errors(&fixture),
        vec!["run 7 is live. (Another process owns this session's run right now.)"]
    );
    assert!(!fixture.app.running);
}

#[test]
fn the_queue_runs_one_goal_after_the_other() {
    let mut fixture = World::new(&[]);
    fixture.refusal = None;
    type_text(&mut fixture.app, "first");
    fixture.submit();
    for prompt in ["second", "third"] {
        type_text(&mut fixture.app, prompt);
        fixture.key(Key::Return);
    }
    assert_eq!(fixture.started, vec!["first"]);
    for _ in 0..2 {
        fixture
            .app
            .on_run_done(RunResult::Failed("boom".to_string()));
        fixture.perform();
    }
    assert_eq!(fixture.started, vec!["first", "second", "third"]);
    assert!(fixture.app.queued_prompts.is_empty());
}

#[test]
fn events_gather_before_they_show() {
    let mut fixture = World::new(&[]);
    fixture.app.running = true;
    fixture
        .app
        .on_event(harness_event(HarnessEventType::ModelText, "All done."));
    assert!(fixture.app.feed.cells.is_empty());
    assert_eq!(fixture.app.next_wait(), 48);
    assert!(!fixture.app.on_timers(), "nothing is due yet");
    at(&mut fixture, 48);
    assert!(fixture.app.on_timers());
    assert_eq!(fixture.app.feed.cells.len(), 1);
    assert!(fixture.app.feed.pending_cells.is_empty());
    assert_eq!(fixture.app.feed.pending_detail, None);
    assert_eq!(fixture.app.feed.running_detail.as_deref(), Some("cycle 3"));
}

#[test]
fn an_idle_loop_waits_as_long_as_it_may() {
    let mut fixture = World::new(&[]);
    assert!(fixture.app.jobs_due() || fixture.app.next_wait() <= 300);
    fixture.refresh_jobs();
    assert_eq!(fixture.app.next_wait(), 300);
    assert!(!fixture.app.jobs_due());
    at(&mut fixture, 500);
    assert!(fixture.app.jobs_due());
}

#[test]
fn the_activity_line_ticks_while_a_run_is_live() {
    let mut fixture = World::new(&[]);
    fixture.refusal = None;
    type_text(&mut fixture.app, "go");
    fixture.submit();
    let tick = fixture.app.activity_next_tick.expect("the clock runs");
    assert_eq!(tick, NOW + SPINNER_INTERVAL_MS);
    at(&mut fixture, SPINNER_INTERVAL_MS);
    assert!(fixture.app.on_timers());
    assert_eq!(
        fixture.app.activity_next_tick,
        Some(NOW + 2 * SPINNER_INTERVAL_MS)
    );
    fixture.finish_run();
    assert_eq!(fixture.app.activity_next_tick, None);
}

#[test]
fn a_resize_is_drawn_once_the_window_rests() {
    let mut fixture = World::new(&[]);
    fixture.app.push_info("hello there");
    let _ = fixture.app.paint("");
    fixture.app.on_winch();
    assert!(!fixture.app.resize_due());
    at(&mut fixture, 150);
    assert!(fixture.app.resize_due());
    let same_width = fixture.app.settle_resize(80, 30, "");
    assert!(!same_width.contains("\u{1b}[2J"), "nothing is cleared");
    assert!(!fixture.app.resize_due());
    let other_width = fixture.app.settle_resize(60, 30, "");
    assert!(other_width.contains("\u{1b}[2J\u{1b}[H"));
    assert!(other_width.contains("hello there"), "{other_width:?}");
}

#[test]
fn what_settled_is_printed_once() {
    let mut fixture = World::new(&[]);
    fixture.app.push_info("hello there");
    let first = fixture.app.paint("");
    assert!(first.contains("hello there"));
    assert!(first.starts_with("\u{1b}[?2026h") && first.ends_with("\u{1b}[?2026l"));
    let second = fixture.app.paint("");
    assert!(!second.contains("hello there"));
}

#[test]
fn the_region_never_outgrows_the_screen() {
    let mut fixture = World::new(&["navis"]);
    type_text(&mut fixture.app, "/");
    for rows in [1usize, 2, 3, 5, 10, 24] {
        for cols in [1usize, 7, 20, 80] {
            fixture.app.rows = rows;
            fixture.app.cols = cols;
            let region = fixture.live();
            assert!(!region.is_empty() && region.len() <= rows, "{rows}x{cols}");
        }
    }
}

#[test]
fn a_late_question_opens_nothing() {
    let mut fixture = World::new(&[]);
    fixture.app.run_session_id = Some("another-session".to_string());
    let mut late = harness_event(HarnessEventType::Question, "asks");
    late.question_survey = Some(survey());
    fixture.app.on_event(late);
    assert!(fixture.app.survey.is_none() && fixture.app.overlay.is_none());

    fixture.app.run_session_id = Some(fixture.app.session.id.clone());
    let mut own = harness_event(HarnessEventType::Question, "asks");
    own.question_survey = Some(survey());
    fixture.app.on_event(own);
    assert!(fixture.app.survey.is_some());

    // The same survey again keeps what was answered.
    fixture.key(Key::Text("2".to_string()));
    let mut again = harness_event(HarnessEventType::Question, "asks");
    again.question_survey = Some(survey());
    fixture.app.on_event(again);
    assert_eq!(fixture.app.survey.as_ref().map(|state| state.current), Some(1));

    // Answers from elsewhere close it.
    let mut answered = harness_event(HarnessEventType::HarnessOp, "answered");
    answered.has_answers = true;
    answered.tool_name = Some("ask_user".to_string());
    fixture.app.on_event(answered);
    assert!(fixture.app.survey.is_none() && fixture.app.overlay.is_none());
}

#[test]
fn answers_that_cannot_be_written_are_asked_again() {
    let mut fixture = World::new(&[]);
    fixture.begin_survey(survey());
    fixture.answers_blocked = true;
    fixture.key(Key::Text("1".to_string()));
    fixture.key(Key::Text("2".to_string()));
    let state = fixture.app.survey.as_ref().expect("the survey waits");
    assert_eq!(state.current, 1);
    assert_eq!(state.answers.len(), 1);
    assert!(errors(&fixture)[0].starts_with("could not record survey answers: blocked"));
    fixture.answers_blocked = false;
    fixture.key(Key::Text("1".to_string()));
    assert!(fixture.app.survey.is_none());
    assert!(fixture.answers.contains("\"choice\":\"Poll\""), "{}", fixture.answers);
    assert!(fixture.answers.contains("\"choice\":\"Yes\""), "{}", fixture.answers);
}

#[test]
fn free_text_answers_a_question() {
    let mut fixture = World::new(&[]);
    fixture.begin_survey(survey());
    fixture.key(Key::Text("3".to_string()));
    fixture.key(Key::Return);
    assert_eq!(fixture.app.survey.as_ref().map(|state| state.current), Some(0));
    fixture.key(Key::Text("both!".to_string()));
    fixture.key(Key::Backspace);
    fixture.key(Key::Return);
    let state = fixture.app.survey.as_ref().expect("one question is left");
    assert_eq!(state.answers[0].other.as_deref(), Some("both"));
    assert_eq!(state.answers[0].choice, None);
}

#[test]
fn ctrl_c_ends_the_session_from_everywhere() {
    let mut idle = World::new(&["navis"]);
    idle.key(Key::Ctrl('c'));
    assert!(idle.app.quit);

    let mut picking = World::new(&["navis"]);
    picking.dispatch("skills", "");
    picking.key(Key::Ctrl('c'));
    assert!(picking.app.quit);

    let mut browsing = World::with_jobs(vec![job("shell-1", "BASH_ASYNC", "make")]);
    browsing.key(Key::Ctrl('b'));
    browsing.key(Key::Ctrl('c'));
    assert!(browsing.app.quit);

    let mut asked = World::new(&[]);
    asked.begin_survey(survey());
    asked.key(Key::Text("3".to_string()));
    asked.key(Key::Ctrl('c'));
    assert!(asked.app.quit);

    let mut running = World::new(&[]);
    running.app.running = true;
    running.key(Key::Ctrl('c'));
    assert!(running.app.quit);
    assert_eq!(running.app.close(), 0);
}

#[test]
fn a_message_that_cannot_be_sent_waits_at_the_head() {
    let mut fixture = World::new(&[]);
    fixture.app.running = true;
    type_text(&mut fixture.app, "queued");
    fixture.key(Key::Return);
    fixture.inbox_blocked = true;
    type_text(&mut fixture.app, "now");
    fixture.key(Key::Ctrl('s'));
    assert_eq!(fixture.app.queued_prompts, vec!["now", "queued"]);
    assert_eq!(
        errors(&fixture),
        vec!["could not steer the running goal (blocked) — kept in the queue"]
    );
    fixture.key(Key::Ctrl('s'));
    assert_eq!(fixture.app.queued_prompts, vec!["now", "queued"]);
    assert!(errors(&fixture)[1].ends_with("2 kept in the queue"));
    fixture.inbox_blocked = false;
    fixture.key(Key::Ctrl('s'));
    assert!(fixture.app.queued_prompts.is_empty());
    assert_eq!(fixture.inbox.lines().count(), 2);
}

#[test]
fn a_paste_is_typed_and_a_final_line_feed_submits_it() {
    let mut fixture = World::new(&[]);
    fixture.key(Key::Paste("one\r\ntwo".to_string()));
    assert_eq!(fixture.app.composer.text, "one\ntwo");
    assert!(fixture.started.is_empty());
    fixture.key(Key::Paste(" three\n".to_string()));
    assert_eq!(fixture.started, vec!["one\ntwo three"]);
    assert!(fixture.app.composer.text.is_empty());
}

#[test]
fn images_attach_and_detach() {
    let mut fixture = World::new(&[]);
    let image = || Attachment {
        path: "/s/images/1.png".to_string(),
        data_url: "data:image/png;base64,AAAA".to_string(),
    };
    fixture.app.on_paste("/tmp/shot.png", Some(image()));
    fixture.app.adopt_clipboard(Some(image()), "Inline images: kitty.");
    assert_eq!(fixture.app.attachments.len(), 2);
    assert_eq!(
        last_info(&fixture.app),
        "2 image(s) attached. Inline images: kitty."
    );
    fixture.key(Key::Backspace);
    assert_eq!(fixture.app.attachments.len(), 1);
    fixture.submit();
    assert_eq!(
        fixture.started,
        vec!["Describe the attached image(s) in the context of this workspace."]
    );
    assert!(fixture.app.attachments.is_empty());
    fixture.app.adopt_clipboard(None, "");
    assert_eq!(last_info(&fixture.app), "no image found on the clipboard.");
}

#[test]
fn commands_ask_for_what_they_need() {
    let asks = |name: &str, args: &str| {
        let mut fixture = World::new(&[]);
        fixture.app.dispatch_command(name, args);
        fixture.app.take_effects()
    };
    assert_eq!(asks("model", ""), vec![Effect::OpenPicker(OverlayKind::Model, 15)]);
    assert_eq!(
        asks("toolmodel", ""),
        vec![Effect::OpenPicker(OverlayKind::ToolModel, 15)]
    );
    assert_eq!(asks("prompt", ""), vec![Effect::OpenPicker(OverlayKind::Prompt, 15)]);
    assert_eq!(
        asks("resume", ""),
        vec![Effect::OpenPicker(OverlayKind::Sessions, 15)]
    );
    assert_eq!(
        asks("resume", "abc"),
        vec![Effect::ResumeSession("abc".to_string())]
    );
    assert_eq!(asks("sessions", ""), vec![Effect::ListSessions(15)]);
    assert_eq!(asks("state", ""), vec![Effect::ShowState]);
    assert_eq!(asks("roles", ""), vec![Effect::ListRoles]);
    assert_eq!(asks("config", ""), vec![Effect::ShowConfig]);
    assert_eq!(asks("jobs", "+2"), vec![Effect::OpenJobs { row: Some(1) }]);
    assert_eq!(asks("jobs", "0"), vec![Effect::OpenJobs { row: None }]);
    assert_eq!(asks("env", ""), vec![Effect::ListEnv]);
    assert_eq!(
        asks("env", "KEY = a=b "),
        vec![Effect::SetEnv {
            key: "KEY".to_string(),
            value: "a=b".to_string()
        }]
    );
    assert!(matches!(&asks("env", "=x")[..], [Effect::Persist(TranscriptEntry::Error(note))] if note.text == "Usage: /env KEY=value"));
    assert_eq!(
        asks("plugin", "disable a/b"),
        vec![Effect::SetPlugin {
            enable: false,
            key: "a/b".to_string()
        }]
    );
    assert_eq!(
        asks("marketplace", "remove shop"),
        vec![
            Effect::RemoveMarketplace("shop".to_string()),
            Effect::RefreshSkills
        ]
    );
    assert_eq!(
        asks("marketplace", ""),
        vec![Effect::ListMarketplaces, Effect::RefreshSkills]
    );
}

#[test]
fn picking_a_row_asks_for_its_effect() {
    let mut fixture = World::new(&[]);
    for (kind, effect) in [
        (OverlayKind::Model, Effect::SelectProfile("x".to_string())),
        (OverlayKind::ToolModel, Effect::SelectToolProfile("x".to_string())),
        (OverlayKind::Prompt, Effect::SelectPrompt("x".to_string())),
        (OverlayKind::Sessions, Effect::OpenSession("x".to_string())),
    ] {
        let item = PickerItem {
            detail: None,
            id: "x".to_string(),
            label: "x".to_string(),
        };
        fixture.app.on_pick(kind, item);
        assert_eq!(fixture.app.take_effects(), vec![effect]);
    }
    fixture.app.save_config(OverlayKind::Model, "x", None);
    assert_eq!(last_info(&fixture.app), "model profile set to x");
    fixture
        .app
        .save_config(OverlayKind::Prompt, "x", Some("disk full".to_string()));
    assert_eq!(errors(&fixture), vec!["disk full"]);
}

#[test]
fn settled_jobs_wake_an_idle_session() {
    let mut fixture = World::new(&[]);
    let mut settled = job("shell-1", "BASH_ASYNC", "make");
    settled.status = ChatAsyncToolJobStatus::Completed;
    settled.exit_code = Some(Some(2));
    fixture.set_jobs(vec![settled]);
    fixture.carry_out(Effect::HandOffJobs);
    fixture.perform();
    assert_eq!(
        fixture.started,
        vec!["[background shell] shell-1 make: finished with exit 2 - full output: /tmp/job.log"]
    );
}

#[test]
fn the_first_goal_runs_when_the_session_opens() {
    let mut fixture = World::new(&[]);
    fixture.app.bootstrap.initial_goal = Some("ship the release".to_string());
    fixture.app.open(one_cycle());
    fixture.perform();
    assert_eq!(fixture.started, vec!["ship the release"]);
    assert_eq!(fixture.app.bootstrap.initial_goal, None);
    assert!(fixture.app.feed.cells.len() > one_cycle().len());
}

#[test]
fn setting_up_a_run_reports_what_went_wrong() {
    let mut fixture = World::new(&[]);
    fixture.app.report_setup(
        &vec!["mcp: server \"x\": gone — its tools are unavailable".to_string()],
        &vec!["x".to_string(), "y".to_string()],
        &vec!["unknown tool".to_string()],
    );
    let notes: Vec<String> = fixture
        .app
        .feed
        .cells
        .iter()
        .filter_map(|entry| match entry {
            TranscriptEntry::Info(note) => Some(note.text.clone()),
            _ => None,
        })
        .collect();
    assert_eq!(
        notes,
        vec![
            "mcp: server \"x\": gone — its tools are unavailable",
            "mcp: spawning x, y for this run",
            "roles: unknown tool"
        ]
    );
    fixture.app.report_classifier(
        Some("no threads".to_string()),
        &Vec::new(),
        Some("classifier: on".to_string()),
    );
    assert_eq!(
        errors(&fixture),
        vec!["classifier: tokio runtime unavailable (no threads) — skill classification is off for this run"]
    );
    assert_eq!(last_info(&fixture.app), "classifier: on");
}

#[test]
fn locked_rows_stay_off() {
    let mut fixture = World::new(&[]);
    let plugin = PluginSkill {
        description: "locked away".to_string(),
        enabled: false,
        key: "shop/tidy/sweep".to_string(),
        name: "sweep".to_string(),
        bytes: Some(8),
    };
    let rows = collect_skill_rows(&Vec::new(), &vec![plugin]);
    fixture.app.open_skill_picker(Vec::new(), rows);
    fixture.key(Key::Return);
    assert!(fixture.app.active_skills.is_empty());
    assert!(fixture.app.overlay.is_some());
}

#[test]
fn late_titles_and_names_change_nothing() {
    let mut fixture = World::new(&[]);
    fixture.app.titles.pane_title = Some(PaneTitle::new("ship the release"));
    let before = label(&fixture);
    let stale = fixture.app.titles.title_epoch.wrapping_add(1);
    fixture.app.adopt_title(stale, Some("Late Title".to_string()));
    assert_eq!(label(&fixture), before);
    let epoch = fixture.app.titles.title_epoch;
    fixture.app.adopt_title(epoch, Some("In Time".to_string()));
    assert_eq!(label(&fixture), "In Time");
}

fn last_notice(world: &World) -> (bool, String) {
    match world.app.feed.cells.last() {
        Some(TranscriptEntry::Info(note)) => (false, note.text.clone()),
        Some(TranscriptEntry::Error(note)) => (true, note.text.clone()),
        _ => panic!("a notice closes the transcript"),
    }
}

#[test]
fn what_a_command_came_to_is_a_notice_or_an_error() {
    let mut world = World::new(&[]);
    let failure = || Some("disk full".to_string());

    world.app.show_config(Err("no key".to_string()));
    assert_eq!(
        last_notice(&world),
        (false, "config: /h/config.json\nprofile error: no key".to_string())
    );

    assert!(world.app.begin_env(Err("bad profiles".to_string())).is_none());
    assert_eq!(last_notice(&world), (true, "bad profiles".to_string()));
    let references = world.app.begin_env(Ok(Vec::new())).expect("no tokens");
    world.app.show_env(&references, &Vec::new());
    assert!(last_notice(&world)
        .1
        .starts_with("env file: /h/env.vars\n\nno model profiles reference env vars."));
    world.app.finish_env("KEY", None);
    assert_eq!(last_notice(&world), (false, "KEY saved to /h/env.vars".to_string()));
    world.app.finish_env("KEY", failure());
    assert_eq!(last_notice(&world), (true, "disk full".to_string()));

    world.app.show_roles(&Vec::new(), &None, &None, &Vec::new());
    assert!(last_notice(&world).1.starts_with("no roles defined."));

    let state = || MarketplaceState {
        records: Vec::new(),
        plugins: Vec::new(),
        issues: Vec::new(),
    };
    world.app.show_marketplaces(Ok(state()));
    assert!(last_notice(&world).1.starts_with("no marketplaces registered."));
    world.app.show_marketplaces(Err("unreadable".to_string()));
    assert_eq!(last_notice(&world), (true, "unreadable".to_string()));
    let shop = MarketplaceReport {
        name: "shop".to_string(),
        kind: "git".to_string(),
        source: "https://example.com/shop".to_string(),
    };
    world.app.finish_added(Ok((shop, state())));
    assert!(last_notice(&world)
        .1
        .starts_with("registered \"shop\" (git): 0 plugin(s), 0 skill(s), 0 role(s).\n"));
    world.app.finish_added(Err("no such repo".to_string()));
    assert_eq!(last_notice(&world), (true, "no such repo".to_string()));
    world.app.finish_updated(Ok(vec!["shop".to_string()]));
    assert_eq!(last_notice(&world), (false, "updated: shop".to_string()));
    world.app.finish_updated(Err("offline".to_string()));
    assert_eq!(last_notice(&world), (true, "offline".to_string()));
    world.app.finish_removed("shop", None);
    assert_eq!(
        last_notice(&world),
        (false, "removed marketplace \"shop\".".to_string())
    );
    world.app.finish_removed("shop", failure());
    assert_eq!(last_notice(&world), (true, "disk full".to_string()));
    world.app.finish_plugin("shop/tidy", true, &Vec::new(), None);
    let (is_error, text) = last_notice(&world);
    assert!(!is_error && text.starts_with("shop/tidy enabled (user scope;"), "{text}");
    world.app.finish_plugin("shop/tidy", true, &Vec::new(), failure());
    assert_eq!(last_notice(&world), (true, "disk full".to_string()));
}

#[test]
fn an_answer_without_a_question_is_written_with_the_others() {
    let mut world = World::new(&[]);
    world.app.begin_survey(survey());
    assert_eq!(
        world.app.survey.as_ref().map(|state| state.answers_path.as_str()),
        Some("/s/sess-test/answers.jsonl")
    );
    let questions = survey().questions.len();
    for _ in 0..questions {
        world.app.record_survey_answer(Some("a".to_string()), None);
    }
    // Not written yet: one more answer asks for it once more.
    world.app.record_survey_answer(None, Some("late".to_string()));
    let effects = world.app.take_effects();
    assert_eq!(
        effects.iter().filter(|effect| matches!(effect, Effect::WriteAnswers)).count(),
        2
    );
    let state = world.app.survey.as_ref().expect("the survey waits for its answers");
    assert_eq!(state.answers.len(), questions + 1);
    assert_eq!(state.answers[questions].other.as_deref(), Some("late"));
}

#[test]
fn a_survey_that_is_gone_is_not_ended_again() {
    let mut world = World::new(&[]);
    let shown = world.app.feed.cells.len();
    world.app.finish_survey(None);
    world.app.finish_survey(Some("full".to_string()));
    world.app.finish_chat("reply".to_string(), None);
    world.app.finish_chat("reply".to_string(), Some("full".to_string()));
    assert_eq!(world.app.feed.cells.len(), shown);
    assert_eq!(world.app.composer.text, "");
}
