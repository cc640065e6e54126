//! The session as a whole: every part of its state, and the model that the
//! contracts of its handlers speak of.

use vstd::prelude::*;
use crate::text;
use crate::transcript::{EntryModel, TranscriptEntry, TranscriptNoteEntry, TranscriptSkillEntry};
use crate::tools::types::ChatAsyncToolJob;
use crate::tui::app::composer;
use crate::tui::app::composer::{Composer, ComposerModel};
use crate::tui::app::effects;
use crate::tui::app::effects::{Attachment, Effect, EffectModel};
use crate::tui::app::feed::{Feed, FeedModel};
use crate::tui::app::history::{HistoryModel, PromptHistory};
use crate::tui::app::input;
use crate::tui::app::job_browser::{JobBrowser, JobsModel};
use crate::tui::app::mcp;
use crate::tui::app::overlay;
use crate::tui::app::overlay::{Overlay, OverlayModel, SessionSummary};
use crate::tui::app::skills::{LoadedSkill, SkillRow};
use crate::tui::app::status_row::{StatusLine, StatusLineSetting};
use crate::tui::app::survey;
use crate::tui::app::survey::{SurveyModel, SurveyState};
use crate::tui::app::titles::{Titles, TitlesModel};

verus! {

/// The places of the user's own files.
#[derive(Debug, PartialEq)]
pub struct DripHome {
    pub config_path: String,
    pub env_vars_path: String,
    pub marketplaces_path: String,
    pub skills_dir: String,
}

/// The places of a session's files.
#[derive(Debug, PartialEq)]
pub struct SessionPaths {
    pub dir: String,
    pub images_dir: String,
    pub inbox_path: String,
    pub meta_path: String,
    pub state_path: String,
    pub transcript_path: String,
}

/// What the interactive session starts from.
#[derive(Debug, PartialEq)]
pub struct TuiBootstrap {
    pub allow_net: bool,
    /// Whether the run may survey the operator.
    pub ask: bool,
    pub ask_timeout_secs: Option<i64>,
    pub reference_roots: Vec<String>,
    pub cwd: String,
    pub home: DripHome,
    pub initial_goal: Option<String>,
    pub max_iterations: Option<i64>,
    pub max_loops: Option<i64>,
    pub task_loop_limit: Option<i64>,
    pub review_waiver_lines: Option<usize>,
    pub plan_mode: Option<String>,
    pub no_repo_memory: bool,
    /// The goal that `/praeparare` runs.
    pub praeparare_goal: String,
    pub session: SessionSummary,
    pub status_line: Option<StatusLineSetting>,
    pub classifier: Option<String>,
    pub no_classifier: bool,
}

/// The interactive session.
pub struct TuiApp {
    /// The time of the event at hand, in milliseconds.
    pub now: u64,
    /// The same time as the transcript writes it.
    pub stamp: String,
    /// Whether a terminal shows the session.
    pub is_tty: bool,
    pub bootstrap: TuiBootstrap,
    pub session: SessionSummary,
    pub paths: SessionPaths,
    pub cols: usize,
    pub rows: usize,
    pub composer: Composer,
    pub prompt_history: PromptHistory,
    pub overlay: Option<Overlay>,
    pub survey: Option<SurveyState>,
    pub jobs: JobBrowser,
    pub titles: Titles,
    pub feed: Feed,
    pub status_line: StatusLine,
    pub active_skills: Vec<LoadedSkill>,
    pub skill_rows: Vec<SkillRow>,
    pub attachments: Vec<Attachment>,
    /// Messages that wait for the next run.
    pub queued_prompts: Vec<String>,
    pub mcp_run_gate: Option<Vec<String>>,
    pub running: bool,
    /// Whether the live run can be asked to stop.
    pub abortable: bool,
    /// The session that the current or last run belongs to.
    pub run_session_id: Option<String>,
    pub run_started_at: Option<u64>,
    pub activity_next_tick: Option<u64>,
    pub paste_buffer: Option<Vec<u8>>,
    pub quit: bool,
    pub exit_code: i32,
    pub resize_at: Option<u64>,
    /// How many rows the live region took when it was painted last.
    pub live_rows: usize,
    /// What waits to be carried out.
    pub effects: Vec<Effect>,
}

/// What a session holds.
#[verifier::ext_equal]
pub ghost struct AppModel {
    pub now: u64,
    pub stamp: Seq<char>,
    pub is_tty: bool,
    pub bootstrap: TuiBootstrap,
    pub session: SessionSummary,
    pub paths: SessionPaths,
    pub cols: usize,
    pub rows: usize,
    pub composer: ComposerModel,
    pub history: HistoryModel,
    pub overlay: Option<OverlayModel>,
    pub survey: Option<SurveyModel>,
    pub jobs: JobsModel,
    pub titles: TitlesModel,
    pub feed: FeedModel,
    pub status_line: StatusLine,
    pub active: Seq<LoadedSkill>,
    pub skill_rows: Seq<SkillRow>,
    pub attachments: Seq<Attachment>,
    pub queued: Seq<Seq<char>>,
    pub gate: Option<Seq<Seq<char>>>,
    pub running: bool,
    pub abortable: bool,
    pub run_session: Option<Seq<char>>,
    pub run_started_at: Option<u64>,
    pub activity_next_tick: Option<u64>,
    pub paste: Option<Seq<u8>>,
    pub quit: bool,
    pub exit_code: i32,
    pub resize_at: Option<u64>,
    pub live_rows: usize,
    pub effects: Seq<EffectModel>,
}

impl View for TuiApp {
    type V = AppModel;

    open spec fn view(&self) -> AppModel {
        AppModel {
            now: self.now,
            stamp: self.stamp@,
            is_tty: self.is_tty,
            bootstrap: self.bootstrap,
            session: self.session,
            paths: self.paths,
            cols: self.cols,
            rows: self.rows,
            composer: self.composer@,
            history: self.prompt_history@,
            overlay: overlay::overlay_model(self.overlay),
            survey: survey::survey_model(self.survey),
            jobs: self.jobs@,
            titles: self.titles@,
            feed: self.feed@,
            status_line: self.status_line,
            active: self.active_skills@,
            skill_rows: self.skill_rows@,
            attachments: self.attachments@,
            queued: text::texts(self.queued_prompts@),
            gate: mcp::gate_model(self.mcp_run_gate),
            running: self.running,
            abortable: self.abortable,
            run_session: text::opt_text(self.run_session_id),
            run_started_at: self.run_started_at,
            activity_next_tick: self.activity_next_tick,
            paste: input::buffer_model(self.paste_buffer),
            quit: self.quit,
            exit_code: self.exit_code,
            resize_at: self.resize_at,
            live_rows: self.live_rows,
            effects: effects::effect_models(self.effects@),
        }
    }
}

impl AppModel {
    /// Every session that its own handlers lead to.
    pub open spec fn wf(self) -> bool {
        &&& self.composer.wf()
        &&& self.history.wf()
        &&& self.jobs.wf()
        &&& self.feed.wf()
        &&& match self.survey {
            Some(s) => s.wf(),
            None => true,
        }
    }

    /// One more thing to do.
    pub open spec fn with(self, effect: EffectModel) -> AppModel {
        AppModel { effects: self.effects.push(effect), ..self }
    }

    /// An entry shown.
    pub open spec fn celled(self, entry: EntryModel) -> AppModel {
        AppModel {
            feed: self.feed.pushed(entry, self.now, self.running, self.cols as nat),
            ..self
        }
    }

    /// An entry shown and written to the transcript.
    pub open spec fn noted(self, entry: EntryModel) -> AppModel {
        self.celled(entry).with(EffectModel::Persist(entry))
    }

    /// A notice.
    pub open spec fn info(self, s: Seq<char>) -> AppModel {
        self.noted(EntryModel::Info { at: self.stamp, text: s })
    }

    /// An error.
    pub open spec fn error(self, s: Seq<char>) -> AppModel {
        self.noted(EntryModel::Error { at: self.stamp, text: s })
    }

    /// A skill switched on or off.
    pub open spec fn skill_noted(self, name: Seq<char>, enabled: bool) -> AppModel {
        self.noted(EntryModel::Skill { at: self.stamp, enabled, name })
    }

    /// An escape for the terminal, where there is one.
    pub open spec fn shown(self, escape: Option<Seq<char>>) -> AppModel {
        match escape {
            Some(e) => self.with(EffectModel::Title(e)),
            None => self,
        }
    }

    /// The title while the operator is asked, or no longer.
    pub open spec fn title_waiting(self, waiting: bool) -> AppModel {
        AppModel { titles: self.titles.waiting(waiting, self.now), ..self }.shown(
            self.titles.waiting_escape(waiting, self.now),
        )
    }

    /// Another text in the composer.
    pub open spec fn typed(self, c: ComposerModel) -> AppModel {
        AppModel { composer: c, ..self }
    }

    /// The session is to end.
    pub open spec fn ended(self) -> AppModel {
        AppModel { quit: true, ..self }
    }
}

/// What the driver knows when the session opens.
pub struct TuiStart {
    pub bootstrap: TuiBootstrap,
    pub paths: SessionPaths,
    pub session_name: Option<String>,
    pub is_tty: bool,
    pub cols: usize,
    pub rows: usize,
    pub now: u64,
    pub stamp: String,
    /// Names and descriptions of the skills that were found.
    pub skill_catalog: Vec<(String, String)>,
    pub skill_rows: Vec<SkillRow>,
    pub jobs: Vec<ChatAsyncToolJob>,
    pub job_ages: Vec<Option<i64>>,
}

/// How many prompts the history keeps.
pub const PROMPT_HISTORY_LIMIT: usize = 64;

impl TuiApp {
    /// Opens the session. Nothing is shown yet: the transcript is replayed when
    /// the loop starts.
    pub fn new(start: TuiStart) -> (r: Self)
        ensures
            r@.wf(),
            r@ == (AppModel {
                now: start.now,
                stamp: start.stamp@,
                is_tty: start.is_tty,
                bootstrap: start.bootstrap,
                session: start.bootstrap.session,
                paths: start.paths,
                cols: start.cols,
                rows: start.rows,
                composer: ComposerModel {
                    text: Seq::empty(),
                    cursor: 0,
                    selected_suggestion: 0,
                    selected_skill: 0,
                    catalog: composer::pair_models(start.skill_catalog@),
                    skills: Seq::empty(),
                    mentions: Seq::empty(),
                    mention_seq: 0,
                    mention_request: None,
                },
                history: HistoryModel::empty(PROMPT_HISTORY_LIMIT as nat),
                overlay: None,
                survey: None,
                jobs: JobsModel {
                    rows: start.jobs@,
                    ages: start.job_ages@,
                    counts: crate::tui::app::job_browser::counts_of(start.jobs@),
                    detail: None,
                    next_refresh: Some(
                        crate::tui::app::activity::later_time(
                            start.now,
                            crate::tui::jobs::JOBS_REFRESH_MS,
                        ),
                    ),
                },
                titles: TitlesModel::opened(text::opt_text(start.session_name)),
                feed: FeedModel::fresh(),
                status_line: StatusLine {
                    runner: match start.bootstrap.status_line {
                        Some(setting) => Some(
                            crate::tui::app::status_row::StatusLineRunner {
                                setting,
                                busy: false,
                                is_shut_down: false,
                            },
                        ),
                        None => None,
                    },
                    output: None,
                    next_refresh: None,
                    request_width: None,
                },
                active: Seq::empty(),
                skill_rows: start.skill_rows@,
                attachments: Seq::empty(),
                queued: Seq::empty(),
                gate: None,
                running: false,
                abortable: false,
                run_session: None,
                run_started_at: None,
                activity_next_tick: None,
                paste: None,
                quit: false,
                exit_code: 0,
                resize_at: None,
                live_rows: 0,
                effects: Seq::empty(),
            }),
    {
        let setting = match &start.bootstrap.status_line {
            Some(s) => Some(
                StatusLineSetting {
                    kind: s.kind.clone(),
                    command: s.command.clone(),
                    padding: s.padding,
                    update_interval_ms: s.update_interval_ms,
                    timeout_ms: s.timeout_ms,
                },
            ),
            None => None,
        };
        let session = clone_session(&start.bootstrap.session);
        let r = TuiApp {
            now: start.now,
            stamp: start.stamp,
            is_tty: start.is_tty,
            bootstrap: start.bootstrap,
            session,
            paths: start.paths,
            cols: start.cols,
            rows: start.rows,
            composer: Composer::new(start.skill_catalog),
            prompt_history: PromptHistory::new(PROMPT_HISTORY_LIMIT),
            overlay: None,
            survey: None,
            jobs: JobBrowser::new(start.jobs, start.job_ages, start.now),
            titles: Titles::new(start.session_name),
            feed: Feed::new(),
            status_line: StatusLine::new(setting),
            active_skills: Vec::new(),
            skill_rows: start.skill_rows,
            attachments: Vec::new(),
            queued_prompts: Vec::new(),
            mcp_run_gate: None,
            running: false,
            abortable: false,
            run_session_id: None,
            run_started_at: None,
            activity_next_tick: None,
            paste_buffer: None,
            quit: false,
            exit_code: 0,
            resize_at: None,
            live_rows: 0,
            effects: Vec::new(),
        };
        assert(r@.queued =~= Seq::empty());
        assert(r@.effects =~= Seq::empty());
        assert(r@.active =~= Seq::empty());
        assert(r@.attachments =~= Seq::empty());
        r
    }

    /// Lists one more thing to do.
    pub fn emit(&mut self, effect: Effect)
        ensures
            final(self)@ == old(self)@.with(effect@),
    {
        let ghost e = effect@;
        self.effects.push(effect);
        assert(self@.effects =~= old(self)@.effects.push(e));
        assert(self@ =~= old(self)@.with(e));
    }

    /// Shows an entry.
    pub fn push_cell(&mut self, entry: TranscriptEntry)
        requires
            old(self)@.wf(),
        ensures
            final(self)@ == old(self)@.celled(entry@),
            final(self)@.wf(),
    {
        self.feed.push_cell(entry, self.now, self.running, self.cols);
    }

    /// A notice.
    pub fn push_info(&mut self, s: &str)
        requires
            old(self)@.wf(),
        ensures
            final(self)@ == old(self)@.info(s@),
            final(self)@.wf(),
    {
        let note = TranscriptNoteEntry { at: self.stamp.clone(), text: s.to_string() };
        self.push_cell(TranscriptEntry::Info(note));
        let kept = TranscriptNoteEntry { at: self.stamp.clone(), text: s.to_string() };
        self.emit(Effect::Persist(TranscriptEntry::Info(kept)));
    }

    /// An error.
    pub fn push_error(&mut self, s: &str)
        requires
            old(self)@.wf(),
        ensures
            final(self)@ == old(self)@.error(s@),
            final(self)@.wf(),
    {
        let note = TranscriptNoteEntry { at: self.stamp.clone(), text: s.to_string() };
        self.push_cell(TranscriptEntry::Error(note));
        let kept = TranscriptNoteEntry { at: self.stamp.clone(), text: s.to_string() };
        self.emit(Effect::Persist(TranscriptEntry::Error(kept)));
    }

    /// A skill switched on or off.
    pub fn push_skill_note(&mut self, name: &str, enabled: bool)
        requires
            old(self)@.wf(),
        ensures
            final(self)@ == old(self)@.skill_noted(name@, enabled),
            final(self)@.wf(),
    {
        let note = TranscriptSkillEntry {
            at: self.stamp.clone(),
            enabled,
            name: name.to_string(),
        };
        self.push_cell(TranscriptEntry::Skill(note));
        let kept = TranscriptSkillEntry {
            at: self.stamp.clone(),
            enabled,
            name: name.to_string(),
        };
        self.emit(Effect::Persist(TranscriptEntry::Skill(kept)));
    }

    /// An escape for the terminal, where there is one.
    pub fn show_title(&mut self, escape: Option<String>)
        ensures
            final(self)@ == old(self)@.shown(text::opt_text(escape)),
    {
        match escape {
            Some(e) => {
                self.emit(Effect::Title(e));
            },
            None => {},
        }
    }

    /// Mirrors on the title whether the operator is asked.
    pub fn set_title_waiting(&mut self, waiting: bool)
        ensures
            final(self)@ == old(self)@.title_waiting(waiting),
    {
        let escape = self.titles.set_title_waiting(waiting, self.now);
        self.show_title(escape);
    }

    /// Hands over what waits to be carried out.
    pub fn take_effects(&mut self) -> (r: Vec<Effect>)
        ensures
            effects::effect_models(r@) == old(self)@.effects,
            final(self)@ == (AppModel { effects: Seq::empty(), ..old(self)@ }),
    {
        let mut out: Vec<Effect> = Vec::new();
        out.append(&mut self.effects);
        assert(out@ =~= old(self).effects@);
        assert(self@.effects =~= Seq::empty());
        out
    }
}

/// A copy of a session's record.
pub fn clone_session(s: &SessionSummary) -> (r: SessionSummary)
    ensures
        r == *s,
{
    SessionSummary {
        id: s.id.clone(),
        status: s.status.clone(),
        goal_count: s.goal_count,
        last_goal: crate::transcript::clone_opt(&s.last_goal),
        updated_at: s.updated_at.clone(),
    }
}

// ---------------------------------------------------------------------------
// Laws
// ---------------------------------------------------------------------------

/// Whether two sessions differ in what is shown and in what is asked for at
/// most.
pub open spec fn same_but_shown(a: AppModel, b: AppModel) -> bool {
    a == (AppModel { feed: a.feed, effects: a.effects, ..b })
}

/// A notice is shown behind everything that waited, under its time, and written
/// to the transcript; nothing else changes. The same holds of an error, which
/// stays one, and of a skill that was switched.
pub proof fn law_a_notice_is_shown_and_recorded(app: AppModel, s: Seq<char>, enabled: bool)
    ensures
        ({
            let note = EntryModel::Info { at: app.stamp, text: s };
            let fault = EntryModel::Error { at: app.stamp, text: s };
            let skill = EntryModel::Skill { at: app.stamp, enabled, name: s };
            let waited = app.feed.cells + app.feed.pending;
            &&& app.info(s).feed.cells == waited.push(note)
            &&& app.info(s).effects == app.effects.push(EffectModel::Persist(note))
            &&& same_but_shown(app.info(s), app)
            &&& app.error(s).feed.cells == waited.push(fault)
            &&& app.error(s).effects == app.effects.push(EffectModel::Persist(fault))
            &&& same_but_shown(app.error(s), app)
            &&& app.skill_noted(s, enabled).feed.cells == waited.push(skill)
            &&& app.skill_noted(s, enabled).effects == app.effects.push(
                EffectModel::Persist(skill),
            )
            &&& same_but_shown(app.skill_noted(s, enabled), app)
        }),
{
    let note = EntryModel::Info { at: app.stamp, text: s };
    let fault = EntryModel::Error { at: app.stamp, text: s };
    let skill = EntryModel::Skill { at: app.stamp, enabled, name: s };
    let waited = app.feed.cells + app.feed.pending;
    assert(app.feed.cells + app.feed.pending.push(note) =~= waited.push(note));
    assert(app.feed.cells + app.feed.pending.push(fault) =~= waited.push(fault));
    assert(app.feed.cells + app.feed.pending.push(skill) =~= waited.push(skill));
}

/// What is asked for is asked for last, and changes nothing else. The end of
/// the session is asked for without anything else to do.
pub proof fn law_what_is_asked_for_comes_last(app: AppModel, effect: EffectModel)
    ensures
        app.with(effect).effects == app.effects.push(effect),
        app.with(effect) == (AppModel { effects: app.with(effect).effects, ..app }),
        app.ended().quit,
        app.ended() == (AppModel { quit: app.ended().quit, ..app }),
{
}

/// An escape for the terminal is handed on as it is, where there is one.
pub proof fn law_an_escape_is_handed_on(app: AppModel, escape: Seq<char>)
    ensures
        app.shown(Some(escape)).effects == app.effects.push(EffectModel::Title(escape)),
        app.shown(Some(escape)) == (AppModel { effects: app.shown(Some(escape)).effects, ..app }),
        app.shown(None) == app,
{
}

/// What is seen of a session is what it holds, field by field.
pub proof fn law_a_session_is_seen_as_it_is(it: TuiApp)
    ensures
        it@.now == it.now,
        it@.stamp == it.stamp@,
        it@.is_tty == it.is_tty,
        it@.bootstrap == it.bootstrap,
        it@.session == it.session,
        it@.paths == it.paths,
        it@.cols == it.cols,
        it@.rows == it.rows,
        it@.composer == it.composer@,
        it@.history == it.prompt_history@,
        it@.overlay == overlay::overlay_model(it.overlay),
        it@.survey == survey::survey_model(it.survey),
        it@.jobs == it.jobs@,
        it@.titles == it.titles@,
        it@.feed == it.feed@,
        it@.status_line == it.status_line,
        it@.active == it.active_skills@,
        it@.skill_rows == it.skill_rows@,
        it@.attachments == it.attachments@,
        it@.queued == text::texts(it.queued_prompts@),
        it@.gate == mcp::gate_model(it.mcp_run_gate),
        it@.running == it.running,
        it@.abortable == it.abortable,
        it@.run_session == text::opt_text(it.run_session_id),
        it@.run_started_at == it.run_started_at,
        it@.activity_next_tick == it.activity_next_tick,
        it@.paste == input::buffer_model(it.paste_buffer),
        it@.quit == it.quit,
        it@.exit_code == it.exit_code,
        it@.resize_at == it.resize_at,
        it@.live_rows == it.live_rows,
        it@.effects == effects::effect_models(it.effects@),
{
}

/// The history of a session keeps its last sixty-four prompts.
pub proof fn law_a_session_keeps_sixty_four_prompts()
    ensures
        PROMPT_HISTORY_LIMIT == 64,
        HistoryModel::empty(PROMPT_HISTORY_LIMIT as nat).capacity == 64,
{
}

} // verus!
