//! Slash commands: what each asks for and does, and how a goal starts.

use vstd::prelude::*;
use crate::text;
use crate::text::{blank, concat3, same, split_words, trim};
use crate::tui::app::activity;
use crate::tui::app::activity::later;
use crate::tui::app::browsing;
use crate::tui::app::effects::{Attachment, Effect, EffectModel};
use crate::tui::app::feed::FeedModel;
use crate::tui::app::mcp;
use crate::tui::app::mcp::McpServer;
use crate::tui::app::overlay;
use crate::tui::app::overlay::{
    open_overlay, OverlayKind, PickerLists, SessionSummary, SESSIONS_LISTED,
};
use crate::tui::app::replies;
use crate::tui::app::replies::{sessions_text, state_failed};
use crate::tui::app::slash;
use crate::tui::app::slash::help_text;
use crate::tui::app::state::{AppModel, TuiApp, TuiBootstrap};
use crate::tui::pane_title::SPINNER_INTERVAL_MS;

verus! {

/// The budget of `/praeparare` where none is set.
pub const PRAEPARARE_DEFAULT_MAX_ITERATIONS: i64 = 15;

/// The goal of a message that is only images.
pub const IMAGES_ONLY_GOAL: &'static str =
    "Describe the attached image(s) in the context of this workspace.";

/// What the status bar says of a run that just started.
pub const RESOLVING: &'static str = "resolving context";

// ---------------------------------------------------------------------------
// Goals
// ---------------------------------------------------------------------------

/// The goal of `/praeparare`, with what the operator adds to it.
pub open spec fn goal_with_context(goal: Seq<char>, args: Seq<char>) -> Seq<char> {
    if text::is_blank(args) {
        goal
    } else {
        goal + "\n\nOperator context: "@ + text::trimmed(args)
    }
}

/// The goal of `/praeparare`, with what the operator adds to it; blank context
/// adds nothing.
pub fn praeparare_goal_with_context(goal: &str, args: &str) -> (r: String)
    ensures
        r@ == goal_with_context(goal@, args@),
{
    if blank(args) {
        goal.to_string()
    } else {
        concat3(goal, "\n\nOperator context: ", trim(args).as_str())
    }
}

impl AppModel {
    /// A run starts: its clock, its animation, and its images with it.
    pub open spec fn run_begun(self, goal: Seq<char>) -> AppModel {
        AppModel {
            attachments: Seq::empty(),
            run_session: Some(self.session.id@),
            running: true,
            run_started_at: Some(self.now),
            activity_next_tick: Some(activity::later_time(self.now, SPINNER_INTERVAL_MS)),
            feed: FeedModel { running_detail: Some(RESOLVING@), ..self.feed },
            ..self
        }.with(EffectModel::StartRun(goal, self.attachments))
    }

    /// A message becomes a goal; what was typed enters the history.
    pub open spec fn goal_submitted(self, submitted: Seq<char>) -> AppModel {
        if submitted.len() == 0 {
            self.run_begun(IMAGES_ONLY_GOAL@)
        } else {
            AppModel { history: self.history.recorded(submitted), ..self }.run_begun(submitted)
        }
    }

    /// The budget of `/praeparare`: one that is set stays.
    pub open spec fn budgeted(self) -> AppModel {
        AppModel {
            bootstrap: TuiBootstrap {
                max_iterations: match self.bootstrap.max_iterations {
                    Some(n) => Some(n),
                    None => Some(PRAEPARARE_DEFAULT_MAX_ITERATIONS),
                },
                ..self.bootstrap
            },
            ..self
        }
    }
}

impl TuiApp {
    /// Starts a run.
    pub fn run_goal(&mut self, goal: String)
        requires
            old(self)@.wf(),
        ensures
            final(self)@ == old(self)@.run_begun(goal@),
            final(self)@.wf(),
    {
        let mut images: Vec<Attachment> = Vec::new();
        images.append(&mut self.attachments);
        assert(images@ =~= old(self)@.attachments);
        assert(self@.attachments =~= Seq::empty());
        self.run_session_id = Some(self.session.id.clone());
        self.running = true;
        self.run_started_at = Some(self.now);
        self.activity_next_tick = Some(later(self.now, SPINNER_INTERVAL_MS));
        self.feed.running_detail = Some(RESOLVING.to_string());
        self.emit(Effect::StartRun { goal, images });
    }

    /// Turns a message into a goal.
    pub fn submit_goal_text(&mut self, submitted: String)
        requires
            old(self)@.wf(),
        ensures
            final(self)@ == old(self)@.goal_submitted(submitted@),
            final(self)@.wf(),
    {
        if submitted.as_str().unicode_len() == 0 {
            self.run_goal(IMAGES_ONLY_GOAL.to_string());
        } else {
            self.prompt_history.record(submitted.as_str());
            self.run_goal(submitted);
        }
    }
}

// ---------------------------------------------------------------------------
// Commands
// ---------------------------------------------------------------------------

/// Where a setting's name ends.
pub open spec fn first_equals(s: Seq<char>, from: int) -> int
    decreases s.len() - from,
{
    if from >= s.len() {
        s.len() as int
    } else if s[from] == '=' {
        from
    } else {
        first_equals(s, from + 1)
    }
}

impl AppModel {
    /// `/env`.
    pub open spec fn env_asked(self, args: Seq<char>) -> AppModel {
        let at = first_equals(args, 0);
        if args.len() == 0 {
            self.with(EffectModel::ListEnv)
        } else if at == 0 || at >= args.len() {
            self.error("Usage: /env KEY=value"@)
        } else {
            self.with(
                EffectModel::SetEnv(
                    text::trimmed(args.take(at)),
                    text::trimmed(args.skip(at + 1)),
                ),
            )
        }
    }

    /// `/skill`.
    pub open spec fn skill_asked(self, args: Seq<char>) -> AppModel {
        if args.len() == 0 {
            self.error("Usage: /skill <name>"@)
        } else {
            self.skill_toggled(
                if text::words(args).len() > 0 {
                    text::words(args)[0]
                } else {
                    Seq::empty()
                },
            )
        }
    }

    /// `/praeparare`.
    pub open spec fn praeparare_asked(self, args: Seq<char>) -> AppModel {
        self.skill_named("praeparare"@).budgeted().goal_submitted(
            goal_with_context(self.bootstrap.praeparare_goal@, args),
        )
    }

    /// A word that is no command: the name of a skill, or nothing.
    pub open spec fn word_asked(self, name: Seq<char>, args: Seq<char>) -> AppModel {
        if text::is_blank(args) && self.knows_skill(name) {
            self.skill_named(name)
        } else {
            self.error("Unknown command /"@ + name + ". Try /help."@)
        }
    }

    /// A command.
    pub open spec fn dispatched(self, name: Seq<char>, args: Seq<char>) -> AppModel {
        if name == "help"@ {
            self.info(text::joined(slash::help_rows(), "\n"@))
        } else if name == "quit"@ || name == "exit"@ {
            self.ended()
        } else if name == "model"@ {
            self.with(EffectModel::OpenPicker(OverlayKind::Model, SESSIONS_LISTED))
        } else if name == "rename"@ {
            self.rename_asked(args)
        } else if name == "toolmodel"@ {
            self.with(EffectModel::OpenPicker(OverlayKind::ToolModel, SESSIONS_LISTED))
        } else if name == "prompt"@ {
            self.with(EffectModel::OpenPicker(OverlayKind::Prompt, SESSIONS_LISTED))
        } else if name == "new"@ {
            self.with(EffectModel::NewSession)
        } else if name == "resume"@ {
            if args.len() > 0 {
                self.with(EffectModel::ResumeSession(args))
            } else {
                self.with(EffectModel::OpenPicker(OverlayKind::Sessions, SESSIONS_LISTED))
            }
        } else if name == "sessions"@ {
            self.with(EffectModel::ListSessions(SESSIONS_LISTED))
        } else if name == "state"@ {
            self.with(EffectModel::ShowState)
        } else if name == "jobs"@ {
            self.jobs_asked(browsing::named_row(args))
        } else if name == "skills"@ {
            self.with(EffectModel::BrowseSkills)
        } else if name == "skill"@ {
            self.skill_asked(args)
        } else if name == "mcp"@ {
            self.with(EffectModel::Mcp(args))
        } else if name == "marketplace"@ {
            self.marketplace_asked(args).with(EffectModel::RefreshSkills)
        } else if name == "plugin"@ {
            self.plugin_asked(args)
        } else if name == "roles"@ {
            self.with(EffectModel::ListRoles)
        } else if name == "config"@ {
            self.with(EffectModel::ShowConfig)
        } else if name == "praeparare"@ {
            self.praeparare_asked(args)
        } else if name == "env"@ {
            self.env_asked(args)
        } else {
            self.word_asked(name, args)
        }
    }
}

impl TuiApp {
    fn env_command(&mut self, args: &str)
        requires
            old(self)@.wf(),
        ensures
            final(self)@ == old(self)@.env_asked(args@),
            final(self)@.wf(),
    {
        let x = text::chars_of(args);
        let n: usize = x.len();
        if n == 0 {
            self.emit(Effect::ListEnv);
            return ;
        }
        let mut at: usize = 0;
        while at < n && x[at] != '='
            invariant
                at <= n,
                n == x@.len(),
                x@ == args@,
                first_equals(args@, at as int) == first_equals(args@, 0),
            decreases n - at,
        {
            at = at + 1;
        }
        assert(at == first_equals(args@, 0));
        if at == 0 || at >= n {
            self.push_error("Usage: /env KEY=value");
            return ;
        }
        let head = text::sub_string(&x, 0, at);
        let tail = text::sub_string(&x, at + 1, n);
        assert(head@ =~= args@.take(at as int));
        assert(tail@ =~= args@.skip(at + 1));
        self.emit(Effect::SetEnv { key: trim(head.as_str()), value: trim(tail.as_str()) });
    }

    fn skill_command(&mut self, args: &str)
        requires
            old(self)@.wf(),
        ensures
            final(self)@ == old(self)@.skill_asked(args@),
            final(self)@.wf(),
    {
        if args.unicode_len() == 0 {
            self.push_error("Usage: /skill <name>");
            return ;
        }
        let ws = split_words(args);
        assert(text::texts(ws@).len() == ws@.len());
        if ws.len() > 0 {
            assert(text::texts(ws@)[0] == ws@[0]@);
            self.toggle_skill(ws[0].as_str());
        } else {
            proof {
                reveal_strlit("");
                assert(""@ =~= Seq::<char>::empty());
            }
            self.toggle_skill("");
        }
    }

    fn set_budget(&mut self)
        requires
            old(self)@.wf(),
        ensures
            final(self)@ == old(self)@.budgeted(),
            final(self)@.wf(),
    {
        if self.bootstrap.max_iterations.is_none() {
            self.bootstrap.max_iterations = Some(PRAEPARARE_DEFAULT_MAX_ITERATIONS);
        }
        assert(self@ =~= old(self)@.budgeted());
    }

    fn praeparare_command(&mut self, args: &str)
        requires
            old(self)@.wf(),
        ensures
            final(self)@ == old(self)@.praeparare_asked(args@),
            final(self)@.wf(),
    {
        let _ = self.enable_skill_if_discovered("praeparare");
        let goal = praeparare_goal_with_context(self.bootstrap.praeparare_goal.as_str(), args);
        proof {
            lemma_naming_a_skill_keeps_the_session(old(self)@, "praeparare"@);
        }
        self.set_budget();
        self.submit_goal_text(goal);
    }

    /// Carries a command out. The names of commands win over those of skills.
    pub fn dispatch_command(&mut self, name: &str, args: &str)
        requires
            old(self)@.wf(),
        ensures
            final(self)@ == old(self)@.dispatched(name@, args@),
            final(self)@.wf(),
    {
        if same(name, "help") {
            let said = help_text();
            self.push_info(said.as_str());
        } else if same(name, "quit") || same(name, "exit") {
            self.quit = true;
        } else if same(name, "model") {
            self.emit(Effect::OpenPicker(OverlayKind::Model, SESSIONS_LISTED));
        } else if same(name, "rename") {
            self.rename(args);
        } else if same(name, "toolmodel") {
            self.emit(Effect::OpenPicker(OverlayKind::ToolModel, SESSIONS_LISTED));
        } else if same(name, "prompt") {
            self.emit(Effect::OpenPicker(OverlayKind::Prompt, SESSIONS_LISTED));
        } else if same(name, "new") {
            self.emit(Effect::NewSession);
        } else if same(name, "resume") {
            if args.unicode_len() > 0 {
                self.emit(Effect::ResumeSession(args.to_string()));
            } else {
                self.emit(Effect::OpenPicker(OverlayKind::Sessions, SESSIONS_LISTED));
            }
        } else if same(name, "sessions") {
            self.emit(Effect::ListSessions(SESSIONS_LISTED));
        } else if same(name, "state") {
            self.emit(Effect::ShowState);
        } else if same(name, "jobs") {
            self.jobs_command(args);
        } else if same(name, "skills") {
            self.emit(Effect::BrowseSkills);
        } else if same(name, "skill") {
            self.skill_command(args);
        } else if same(name, "mcp") {
            self.emit(Effect::Mcp(args.to_string()));
        } else if same(name, "marketplace") {
            self.marketplace_command(args);
            self.emit(Effect::RefreshSkills);
        } else if same(name, "plugin") {
            self.plugin_command(args);
        } else if same(name, "roles") {
            self.emit(Effect::ListRoles);
        } else if same(name, "config") {
            self.emit(Effect::ShowConfig);
        } else if same(name, "praeparare") {
            self.praeparare_command(args);
        } else if same(name, "env") {
            self.env_command(args);
        } else {
            if blank(args) && self.enable_skill_if_discovered(name) {
                return ;
            }
            let said = concat3("Unknown command /", name, ". Try /help.");
            self.push_error(said.as_str());
        }
    }
}

// ---------------------------------------------------------------------------
// What comes back
// ---------------------------------------------------------------------------

impl AppModel {
    /// `/state`: a state that could not be read is an error.
    pub open spec fn state_shown(self, summary: Seq<char>) -> AppModel {
        if replies::is_state_error(summary) {
            self.error(summary)
        } else {
            self.info(summary)
        }
    }

    /// `/mcp`, now that the configured servers are known.
    pub open spec fn mcp_asked(self, args: Seq<char>, configured: Seq<McpServer>) -> AppModel {
        let (gate, said, failed) = mcp::mcp_outcome(
            mcp::request_of(text::lowercase(text::trimmed(args))),
            args,
            self.gate,
            configured,
        );
        let switched = AppModel { gate, ..self };
        if failed {
            switched.error(said)
        } else {
            switched.info(said)
        }
    }
}

impl TuiApp {
    /// Opens a picker over what there is to pick from.
    pub fn open_picker(&mut self, kind: OverlayKind, lists: &PickerLists)
        requires
            old(self)@.wf(),
        ensures
            final(self)@ == (match overlay::picker_over(kind, *lists) {
                Some(o) => AppModel { overlay: Some(o), ..old(self)@ },
                None => old(self)@,
            }),
            final(self)@.wf(),
    {
        match open_overlay(kind, lists) {
            Some(o) => {
                self.overlay = Some(o);
            },
            None => {},
        }
    }

    /// Lists sessions; the one at hand is marked.
    pub fn show_sessions(&mut self, records: &Vec<SessionSummary>)
        requires
            old(self)@.wf(),
        ensures
            final(self)@ == old(self)@.info(
                replies::sessions_said(records@, old(self)@.session.id@),
            ),
            final(self)@.wf(),
    {
        let said = sessions_text(records, self.session.id.as_str());
        self.push_info(said.as_str());
    }

    /// Shows the summary of the state; one that tells of a failure is an error.
    pub fn show_state(&mut self, summary: &str)
        requires
            old(self)@.wf(),
        ensures
            final(self)@ == (if replies::is_state_error(summary@) {
                old(self)@.error(summary@)
            } else {
                old(self)@.info(summary@)
            }),
            final(self)@ == old(self)@.state_shown(summary@),
            final(self)@.wf(),
    {
        if state_failed(summary) {
            self.push_error(summary);
        } else {
            self.push_info(summary);
        }
    }

    /// `/mcp`, now that the configured servers are known.
    pub fn mcp_command(&mut self, args: &str, configured: &Vec<McpServer>)
        requires
            old(self)@.wf(),
        ensures
            final(self)@ == old(self)@.mcp_asked(args@, configured@),
            final(self)@.wf(),
    {
        let gate = self.mcp_run_gate.take();
        let reply = mcp::mcp_command(args, gate, configured);
        self.mcp_run_gate = reply.gate;
        if reply.is_error {
            self.push_error(reply.said.as_str());
        } else {
            self.push_info(reply.said.as_str());
        }
    }
}

// ---------------------------------------------------------------------------
// Laws
// ---------------------------------------------------------------------------

proof fn lemma_naming_a_skill_keeps_the_session(app: AppModel, name: Seq<char>)
    ensures
        app.skill_named(name).bootstrap == app.bootstrap,
        app.skill_named(name).session == app.session,
{
}

proof fn lemma_a_goal_starts_a_run(app: AppModel, goal: Seq<char>)
    ensures
        app.goal_submitted(goal).running,
        app.goal_submitted(goal).run_session == Some(app.session.id@),
        app.goal_submitted(goal).bootstrap == app.bootstrap,
{
}

/// `/praeparare` always starts a run, whatever skill has its name, and a budget
/// that was set stays.
pub proof fn law_praeparare_runs_its_goal(app: AppModel, args: Seq<char>)
    ensures
        ({
            let next = app.praeparare_asked(args);
            &&& next.running
            &&& next.run_session == Some(app.session.id@)
            &&& next.bootstrap.max_iterations == Some(
                match app.bootstrap.max_iterations {
                    Some(n) => n,
                    None => PRAEPARARE_DEFAULT_MAX_ITERATIONS,
                },
            )
        }),
{
    let named = app.skill_named("praeparare"@);
    lemma_naming_a_skill_keeps_the_session(app, "praeparare"@);
    lemma_a_goal_starts_a_run(
        named.budgeted(),
        goal_with_context(app.bootstrap.praeparare_goal@, args),
    );
}

/// A command never starts a run, but for `/praeparare`.
pub proof fn law_only_praeparare_starts_a_run(app: AppModel, name: Seq<char>, args: Seq<char>)
    requires
        name != "praeparare"@,
    ensures
        app.dispatched(name, args).running == app.running,
        app.dispatched(name, args).queued == app.queued,
        app.dispatched(name, args).composer == app.composer,
{
}

/// A word with arguments never switches a skill on.
pub proof fn law_arguments_rule_out_a_skill(app: AppModel, name: Seq<char>, args: Seq<char>)
    requires
        !text::is_blank(args),
    ensures
        app.word_asked(name, args) == app.error("Unknown command /"@ + name + ". Try /help."@),
{
}

/// Whether what was done loads no skill and switches none.
pub open spec fn leaves_skills_alone(before: AppModel, after: AppModel) -> bool {
    &&& after.active == before.active
    &&& forall|i: int|
        before.effects.len() <= i < after.effects.len() ==> !(
        #[trigger] after.effects[i] is LoadSkill)
}

proof fn lemma_commands_are_these(name: Seq<char>)
    requires
        slash::command_names().contains(name),
    ensures
        name == "help"@ || name == "model"@ || name == "toolmodel"@ || name == "prompt"@ || name
            == "new"@ || name == "resume"@ || name == "sessions"@ || name == "rename"@ || name
            == "state"@ || name == "jobs"@ || name == "skills"@ || name == "skill"@ || name
            == "mcp"@ || name == "marketplace"@ || name == "plugin"@ || name == "roles"@ || name
            == "config"@ || name == "env"@ || name == "praeparare"@ || name == "quit"@,
{
    let i = choose|i: int| 0 <= i < 20 && slash::command_names()[i] == name;
    assert(slash::command_names()[i] == slash::SLASH_COMMAND_NAMES@[i]@);
}

proof fn lemma_plugins_leave_skills_alone(app: AppModel, args: Seq<char>)
    ensures
        leaves_skills_alone(app, app.plugin_asked(args)),
        leaves_skills_alone(
            app,
            app.marketplace_asked(args).with(EffectModel::RefreshSkills),
        ),
{
}

proof fn lemma_settings_leave_skills_alone(app: AppModel, args: Seq<char>)
    ensures
        leaves_skills_alone(app, app.env_asked(args)),
        leaves_skills_alone(app, app.rename_asked(args)),
        leaves_skills_alone(app, app.jobs_asked(browsing::named_row(args))),
        leaves_skills_alone(app, app.info(text::joined(slash::help_rows(), "\n"@))),
{
}

/// The name of a command always means the command, whatever skill has the same
/// name: no skill is loaded, and none is switched.
pub proof fn law_commands_win_over_skills(app: AppModel, name: Seq<char>, args: Seq<char>)
    requires
        slash::command_names().contains(name),
        name != "skill"@,
        name != "praeparare"@,
    ensures
        leaves_skills_alone(app, app.dispatched(name, args)),
{
    lemma_commands_are_these(name);
    lemma_plugins_leave_skills_alone(app, args);
    lemma_settings_leave_skills_alone(app, args);
}

proof fn lemma_command_names_differ()
    ensures
        "help"@.len() == 4 && "help"@[0] == 'h',
        "quit"@.len() == 4 && "quit"@[0] == 'q',
        "exit"@.len() == 4 && "exit"@[0] == 'e',
        "jobs"@.len() == 4 && "jobs"@[0] == 'j',
        "model"@.len() == 5 && "model"@[0] == 'm',
        "state"@.len() == 5 && "state"@[0] == 's' && "state"@[1] == 't',
        "skill"@.len() == 5 && "skill"@[0] == 's' && "skill"@[1] == 'k',
        "roles"@.len() == 5 && "roles"@[0] == 'r',
        "rename"@.len() == 6 && "rename"@[0] == 'r' && "rename"@[2] == 'n',
        "resume"@.len() == 6 && "resume"@[0] == 'r' && "resume"@[2] == 's',
        "prompt"@.len() == 6 && "prompt"@[0] == 'p' && "prompt"@[1] == 'r',
        "plugin"@.len() == 6 && "plugin"@[0] == 'p' && "plugin"@[1] == 'l',
        "skills"@.len() == 6 && "skills"@[0] == 's',
        "config"@.len() == 6 && "config"@[0] == 'c',
        "new"@.len() == 3 && "new"@[0] == 'n',
        "mcp"@.len() == 3 && "mcp"@[0] == 'm',
        "env"@.len() == 3 && "env"@[0] == 'e',
        "sessions"@.len() == 8,
        "toolmodel"@.len() == 9,
        "praeparare"@.len() == 10,
        "marketplace"@.len() == 11,
{
    reveal_strlit("help");
    reveal_strlit("quit");
    reveal_strlit("exit");
    reveal_strlit("jobs");
    reveal_strlit("model");
    reveal_strlit("state");
    reveal_strlit("skill");
    reveal_strlit("roles");
    reveal_strlit("rename");
    reveal_strlit("resume");
    reveal_strlit("prompt");
    reveal_strlit("plugin");
    reveal_strlit("skills");
    reveal_strlit("config");
    reveal_strlit("new");
    reveal_strlit("mcp");
    reveal_strlit("env");
    reveal_strlit("sessions");
    reveal_strlit("toolmodel");
    reveal_strlit("praeparare");
    reveal_strlit("marketplace");
}

/// Each command asks for its own thing and for that alone: the pickers for the
/// models, the prompts and the sessions, the lists, the new session, the one to
/// resume. At most fifteen sessions are listed.
pub proof fn law_each_command_asks_for_its_own(app: AppModel, args: Seq<char>)
    ensures
        ({
            let done = |name: Seq<char>, effect: EffectModel|
                app.dispatched(name, args) == (AppModel {
                    effects: app.effects.push(effect),
                    ..app
                });
            &&& done("model"@, EffectModel::OpenPicker(OverlayKind::Model, 15))
            &&& done("toolmodel"@, EffectModel::OpenPicker(OverlayKind::ToolModel, 15))
            &&& done("prompt"@, EffectModel::OpenPicker(OverlayKind::Prompt, 15))
            &&& done("new"@, EffectModel::NewSession)
            &&& args.len() > 0 ==> done("resume"@, EffectModel::ResumeSession(args))
            &&& args.len() == 0 ==> done(
                "resume"@,
                EffectModel::OpenPicker(OverlayKind::Sessions, 15),
            )
            &&& done("sessions"@, EffectModel::ListSessions(15))
            &&& done("state"@, EffectModel::ShowState)
            &&& done("skills"@, EffectModel::BrowseSkills)
            &&& done("mcp"@, EffectModel::Mcp(args))
            &&& done("roles"@, EffectModel::ListRoles)
            &&& done("config"@, EffectModel::ShowConfig)
        }),
{
    lemma_command_names_differ();
}

/// The other commands go to their own handlers: help is shown, both words for
/// the end end the session, and the rest are renaming, jobs, one skill,
/// marketplaces, plugins, the pre-PR pass and settings.
pub proof fn law_the_other_commands_have_their_handlers(app: AppModel, args: Seq<char>)
    ensures
        app.dispatched("help"@, args) == app.info(text::joined(slash::help_rows(), "\n"@)),
        app.dispatched("quit"@, args) == (AppModel { quit: true, ..app }),
        app.dispatched("exit"@, args) == (AppModel { quit: true, ..app }),
        app.dispatched("rename"@, args) == app.rename_asked(args),
        app.dispatched("jobs"@, args) == app.jobs_asked(browsing::named_row(args)),
        app.dispatched("skill"@, args) == app.skill_asked(args),
        app.dispatched("plugin"@, args) == app.plugin_asked(args),
        app.dispatched("praeparare"@, args) == app.praeparare_asked(args),
        app.dispatched("env"@, args) == app.env_asked(args),
        app.dispatched("marketplace"@, args).effects == app.marketplace_asked(args).effects.push(
            EffectModel::RefreshSkills,
        ),
{
    lemma_command_names_differ();
}

/// A setting is what stands before and behind the first equals sign, without
/// the white space around either. Without a name before the sign, or without a
/// sign, the use is shown and nothing is set; without arguments the settings
/// are listed.
pub proof fn law_a_setting_is_split_at_its_equals_sign(
    app: AppModel,
    key: Seq<char>,
    value: Seq<char>,
)
    requires
        forall|i: int| 0 <= i < key.len() ==> #[trigger] key[i] != '=',
    ensures
        key.len() > 0 ==> app.env_asked(key + seq!['='] + value).effects == app.effects.push(
            EffectModel::SetEnv(text::trimmed(key), text::trimmed(value)),
        ),
        key.len() > 0 ==> app.env_asked(key) == app.error("Usage: /env KEY=value"@),
        app.env_asked(seq!['='] + value) == app.error("Usage: /env KEY=value"@),
        app.env_asked(Seq::empty()).effects == app.effects.push(EffectModel::ListEnv),
{
    let args = key + seq!['='] + value;
    let n = key.len() as int;
    lemma_equals(args, 0, n);
    assert(args.take(n) =~= key);
    assert(args.skip(n + 1) =~= value);
    lemma_no_equals(key, 0);
    let bare = seq!['='] + value;
    assert(bare[0] == '=');
    lemma_equals(bare, 0, 0);
}

proof fn lemma_equals(s: Seq<char>, from: int, at: int)
    requires
        0 <= from <= at < s.len(),
        s[at] == '=',
        forall|i: int| from <= i < at ==> #[trigger] s[i] != '=',
    ensures
        first_equals(s, from) == at,
    decreases at - from,
{
    if from < at {
        assert(s[from] != '=');
        lemma_equals(s, from + 1, at);
    }
}

proof fn lemma_no_equals(s: Seq<char>, from: int)
    requires
        0 <= from <= s.len(),
        forall|i: int| from <= i < s.len() ==> #[trigger] s[i] != '=',
    ensures
        first_equals(s, from) == s.len(),
    decreases s.len() - from,
{
    if from < s.len() {
        assert(s[from] != '=');
        lemma_no_equals(s, from + 1);
    }
}

/// The goal of the pre-PR pass is its own text, and behind it what the operator
/// adds, without white space around it.
pub proof fn law_the_operators_context_is_added(goal: Seq<char>, args: Seq<char>)
    ensures
        text::is_blank(args) ==> goal_with_context(goal, args) == goal,
        !text::is_blank(args) ==> goal_with_context(goal, args) == goal + "\n\nOperator context: "@
            + text::trimmed(args),
        PRAEPARARE_DEFAULT_MAX_ITERATIONS == 15,
{
}

/// A goal starts a run of this session: with the images that were attached,
/// which are used up, from this moment on. It enters the history as it was
/// submitted. Images alone are a goal of their own, which no history keeps.
pub proof fn law_a_goal_starts_a_run_with_its_images(app: AppModel, goal: Seq<char>)
    ensures
        ({
            let next = app.goal_submitted(goal);
            let asked = if goal.len() == 0 {
                "Describe the attached image(s) in the context of this workspace."@
            } else {
                goal
            };
            &&& next.effects == app.effects.push(EffectModel::StartRun(asked, app.attachments))
            &&& next.attachments.len() == 0
            &&& next.running
            &&& next.run_session == Some(app.session.id@)
            &&& next.run_started_at == Some(app.now)
            &&& next.feed.running_detail == Some("resolving context"@)
            &&& goal.len() > 0 ==> next.history == app.history.recorded(goal)
            &&& goal.len() == 0 ==> next.history == app.history
            &&& next.composer == app.composer
            &&& next.queued == app.queued
            &&& next.active == app.active
            &&& next.survey == app.survey
            &&& next.feed.cells == app.feed.cells
            &&& next.feed.pending == app.feed.pending
        }),
{
}

/// A word that is no command names a skill where one has that name and nothing
/// stands behind it; any other is said to be unknown.
pub proof fn law_an_unknown_word_is_said_to_be_one(app: AppModel, name: Seq<char>, args: Seq<char>)
    ensures
        text::is_blank(args) && app.knows_skill(name) ==> app.word_asked(name, args)
            == app.skill_named(name),
        !text::is_blank(args) || !app.knows_skill(name) ==> app.word_asked(name, args) == app.error(
            "Unknown command /"@ + name + ". Try /help."@,
        ),
        app.skill_asked(Seq::empty()) == app.error("Usage: /skill <name>"@),
        args.len() > 0 && text::words(args).len() > 0 ==> app.skill_asked(args)
            == app.skill_toggled(text::words(args)[0]),
{
}

/// What `/mcp` does is what its argument asks for, whatever the case of its
/// letters and the white space around it: the switch is set, and what is to be
/// said is said, as an error where it is one.
pub proof fn law_mcp_sets_the_switch_and_says_so(
    app: AppModel,
    args: Seq<char>,
    configured: Seq<McpServer>,
)
    ensures
        ({
            let (gate, said, failed) = mcp::mcp_outcome(
                mcp::request_of(text::lowercase(text::trimmed(args))),
                args,
                app.gate,
                configured,
            );
            let switched = AppModel { gate, ..app };
            &&& failed ==> app.mcp_asked(args, configured) == switched.error(said)
            &&& !failed ==> app.mcp_asked(args, configured) == switched.info(said)
        }),
{
}

/// The budget of the pre-PR pass is fifteen cycles where none was set, and the
/// one that was set else; nothing else of the session changes.
pub proof fn law_a_set_budget_stays(app: AppModel, n: i64)
    ensures
        app.bootstrap.max_iterations == Some(n) ==> app.budgeted() == app,
        app.bootstrap.max_iterations is None ==> app.budgeted().bootstrap.max_iterations == Some(
            15i64,
        ),
        app.budgeted().effects == app.effects,
        app.budgeted().running == app.running,
{
    assert(app.bootstrap.max_iterations == Some(n) ==> app.budgeted().bootstrap == app.bootstrap);
}

/// The pre-PR pass starts a run of its own goal, with what the operator added,
/// and switches its skill on.
pub proof fn law_the_pre_pr_pass_runs_its_goal(app: AppModel, args: Seq<char>)
    requires
        !text::is_blank(app.bootstrap.praeparare_goal@),
    ensures
        app.praeparare_asked(args).effects.last() == EffectModel::StartRun(
            goal_with_context(app.bootstrap.praeparare_goal@, args),
            app.attachments,
        ),
{
    let goal = app.bootstrap.praeparare_goal@;
    assert(goal.len() > 0) by {
        if goal.len() == 0 {
            text::law_blank_is_all_space(goal);
        }
    }
    lemma_naming_a_skill_keeps_the_session(app, "praeparare"@);
    let named = app.skill_named("praeparare"@);
    assert(named.attachments == app.attachments);
}

/// A state that could not be read is shown as an error, any other as a notice,
/// as it is told.
pub proof fn law_a_state_is_shown_as_it_is_told(app: AppModel, s: Seq<char>)
    ensures
        app.state_shown("Could not read harness state at "@ + s) == app.error(
            "Could not read harness state at "@ + s,
        ),
        app.state_shown("The file at "@ + s) == app.error("The file at "@ + s),
        !"Could not read harness state at "@.is_prefix_of(s) && !"The file at "@.is_prefix_of(s)
            ==> app.state_shown(s) == app.info(s),
{
    replies::law_a_state_that_cannot_be_read_is_an_error(s);
}

} // verus!
