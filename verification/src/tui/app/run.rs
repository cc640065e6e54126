//! A run from start to end, and the events it sends.

use vstd::prelude::*;
use crate::text;
use crate::text::{concat2, concat3, format_signed, join_texts, same};
use crate::tools::types::ChatAsyncToolJob;
use crate::transcript::{
    EntryModel, EventModel, HarnessEventType, HarnessRunReason, TranscriptEntry,
    TranscriptEventEntry, TranscriptGoalEntry, TranscriptRunEndEntry,
};
use crate::tui::app::activity::ActivityModel;
use crate::tui::app::composer::ComposerModel;
use crate::tui::app::effects::{Effect, EffectModel};
use crate::tui::app::feed::FeedModel;
use crate::tui::app::job_browser;
use crate::tui::app::job_browser::idle_background_reports;
use crate::tui::app::mcp;
use crate::tui::app::mcp::mcp_gate_off;
use crate::tui::app::state::{AppModel, TuiApp};
use crate::tui::app::survey;
use crate::tui::app::survey::QuestionSurvey;
use crate::tui::app::titles;
use crate::tui::app::titles::TitlesModel;

verus! {

/// What entries of the live run are filed under.
pub const LIVE_GOAL: &'static str = "live";

/// What the operator reads where a run ends under its survey.
pub const RUN_ENDED_ASKING: &'static str =
    "the run ended before the survey was answered — resume to be asked again";

/// What the operator reads when a background job wakes the session.
pub const JOB_WAKES: &'static str =
    "a background job finished while the session was idle - waking it up with the result";

impl AppModel {
    /// Notices, one after the other, each behind the same words.
    pub open spec fn told(self, prefix: Seq<char>, notes: Seq<Seq<char>>) -> AppModel
        decreases notes.len(),
    {
        if notes.len() == 0 {
            self
        } else {
            self.told(prefix, notes.drop_last()).info(prefix + notes.last())
        }
    }
}

impl TuiApp {
    /// Notices, one after the other, each behind the same words.
    pub fn push_notes(&mut self, prefix: &str, notes: &Vec<String>)
        requires
            old(self)@.wf(),
        ensures
            final(self)@ == old(self)@.told(prefix@, text::texts(notes@)),
            final(self)@.wf(),
    {
        let ghost before = self@;
        let ghost all = text::texts(notes@);
        let mut i: usize = 0;
        assert(before.told(prefix@, all.take(0)) == before);
        while i < notes.len()
            invariant
                i <= notes.len(),
                all == text::texts(notes@),
                self@ == before.told(prefix@, all.take(i as int)),
                self@.wf(),
            decreases notes.len() - i,
        {
            assert(all.take(i + 1).drop_last() =~= all.take(i as int));
            assert(all.take(i + 1).last() == notes@[i as int]@);
            let said = concat2(prefix, notes[i].as_str());
            self.push_info(said.as_str());
            i = i + 1;
        }
        assert(all.take(i as int) =~= all);
    }
}

// ---------------------------------------------------------------------------
// The start of a run
// ---------------------------------------------------------------------------

impl AppModel {
    /// The goal shows, once what it mentions is resolved.
    pub open spec fn goal_shown(
        self,
        goal: Seq<char>,
        images: Seq<Seq<char>>,
        mentions: Seq<Seq<char>>,
        issues: Seq<Seq<char>>,
    ) -> AppModel {
        self.told("mention: "@, issues).celled(
            EntryModel::Goal {
                at: self.stamp,
                goal_id: LIVE_GOAL@,
                images,
                mentions,
                text: goal,
            },
        )
    }

    /// The title of the run; a title is asked for at most once in a session,
    /// and never for one that has a name.
    pub open spec fn title_begun(
        self,
        goal: Seq<char>,
        shows: bool,
        persisted: Option<Seq<char>>,
    ) -> AppModel {
        let asks = self.titles.requests_title(shows, persisted);
        let spun = AppModel {
            titles: TitlesModel {
                requested: self.titles.requested || asks,
                ..self.titles.spinning(goal, shows, persisted, self.now)
            },
            ..self
        }.shown(self.titles.spinning_escape(goal, shows, persisted, self.now));
        if asks {
            spun.with(EffectModel::RequestTitle(self.titles.title_epoch, goal))
        } else {
            spun
        }
    }

    /// What the run says of its servers and its roles.
    pub open spec fn setup_told(
        self,
        warnings: Seq<Seq<char>>,
        names: Seq<Seq<char>>,
        issues: Seq<Seq<char>>,
    ) -> AppModel {
        let warned = self.told(Seq::empty(), warnings);
        let served = if names.len() > 0 {
            warned.info("mcp: spawning "@ + text::joined(names, ", "@) + " for this run"@)
        } else if mcp::is_off(self.gate) {
            warned.info("mcp: off for this run (/mcp roles re-enables role opt-ins)"@)
        } else {
            warned
        };
        served.told("roles: "@, issues)
    }

    /// What the choice of skills says.
    pub open spec fn classifier_told(
        self,
        failure: Option<Seq<char>>,
        warnings: Seq<Seq<char>>,
        announce: Option<Seq<char>>,
    ) -> AppModel {
        let failed = match failure {
            Some(error) => self.error(
                "classifier: tokio runtime unavailable ("@ + error
                    + ") — skill classification is off for this run"@,
            ),
            None => self,
        };
        let warned = failed.told(Seq::empty(), warnings);
        match announce {
            Some(a) => warned.info(a),
            None => warned,
        }
    }

    /// The run is under way and can be asked to stop.
    pub open spec fn launched(self) -> AppModel {
        AppModel { abortable: true, ..self }
    }
}

impl TuiApp {
    /// Shows the goal of the run.
    pub fn show_goal(
        &mut self,
        goal: &str,
        images: Vec<String>,
        mentions: Vec<String>,
        issues: &Vec<String>,
    )
        requires
            old(self)@.wf(),
        ensures
            final(self)@ == old(self)@.goal_shown(
                goal@,
                text::texts(images@),
                text::texts(mentions@),
                text::texts(issues@),
            ),
            final(self)@.wf(),
    {
        let at = self.stamp.clone();
        self.push_notes("mention: ", issues);
        let entry = TranscriptGoalEntry {
            at,
            goal_id: LIVE_GOAL.to_string(),
            images,
            mentions,
            text: goal.to_string(),
        };
        self.push_cell(TranscriptEntry::Goal(entry));
    }

    /// Starts the title of the run. `shows` says whether titles show at all,
    /// and `persisted` is the name of the session, where it has one.
    pub fn begin_title(&mut self, goal: &str, shows: bool, persisted: Option<&str>)
        requires
            old(self)@.wf(),
        ensures
            final(self)@ == old(self)@.title_begun(goal@, shows, titles::ref_text(persisted)),
            final(self)@.wf(),
    {
        let (escape, asks) = self.titles.begin_title_with(goal, shows, persisted, self.now);
        self.show_title(escape);
        match asks {
            Some(epoch) => {
                self.emit(Effect::RequestTitle { epoch, goal: goal.to_string() });
            },
            None => {},
        }
    }

    /// Says what the run's servers and roles are.
    pub fn report_setup(
        &mut self,
        warnings: &Vec<String>,
        names: &Vec<String>,
        issues: &Vec<String>,
    )
        requires
            old(self)@.wf(),
        ensures
            final(self)@ == old(self)@.setup_told(
                text::texts(warnings@),
                text::texts(names@),
                text::texts(issues@),
            ),
            final(self)@.wf(),
    {
        let off = mcp_gate_off(&self.mcp_run_gate);
        proof {
            reveal_strlit("");
            assert(""@ =~= Seq::<char>::empty());
        }
        self.push_notes("", warnings);
        if names.len() > 0 {
            let joined = join_texts(names, ", ");
            let said = concat3("mcp: spawning ", joined.as_str(), " for this run");
            self.push_info(said.as_str());
        } else if off {
            self.push_info("mcp: off for this run (/mcp roles re-enables role opt-ins)");
        }
        self.push_notes("roles: ", issues);
    }

    /// Says what the choice of skills came to.
    pub fn report_classifier(
        &mut self,
        failure: Option<String>,
        warnings: &Vec<String>,
        announce: Option<String>,
    )
        requires
            old(self)@.wf(),
        ensures
            final(self)@ == old(self)@.classifier_told(
                text::opt_text(failure),
                text::texts(warnings@),
                text::opt_text(announce),
            ),
            final(self)@.wf(),
    {
        match failure {
            Some(error) => {
                let said = concat3(
                    "classifier: tokio runtime unavailable (",
                    error.as_str(),
                    ") — skill classification is off for this run",
                );
                self.push_error(said.as_str());
            },
            None => {},
        }
        proof {
            reveal_strlit("");
            assert(""@ =~= Seq::<char>::empty());
        }
        self.push_notes("", warnings);
        match announce {
            Some(a) => {
                self.push_info(a.as_str());
            },
            None => {},
        }
    }

    /// The run is under way.
    pub fn launch(&mut self)
        requires
            old(self)@.wf(),
        ensures
            final(self)@ == old(self)@.launched(),
            final(self)@.wf(),
    {
        self.abortable = true;
    }
}

// ---------------------------------------------------------------------------
// Its end
// ---------------------------------------------------------------------------

/// How a run ended.
pub enum RunResult {
    Ended { goal_id: String, iterations: i64, reason: HarnessRunReason },
    /// Another process runs the session.
    Taken(String),
    Failed(String),
}

impl AppModel {
    /// The run is over: its survey, its animation and its transient rows go,
    /// what waited and the open tool group settle.
    pub open spec fn run_finished(self) -> AppModel {
        let stopped = AppModel {
            abortable: false,
            feed: FeedModel { pending_detail: None, ..self.feed },
            ..self
        }.survey_dropped(RUN_ENDED_ASKING@);
        let settled = stopped.feed.flushed(
            stopped.now,
            stopped.running,
            stopped.cols as nat,
        ).finalized(stopped.cols as nat);
        AppModel {
            feed: FeedModel {
                running_detail: None,
                activity: ActivityModel::cleared(),
                ..settled
            },
            running: false,
            run_started_at: None,
            activity_next_tick: None,
            titles: stopped.titles.rested(stopped.now),
            ..stopped
        }.shown(stopped.titles.rested_escape(stopped.now))
    }

    /// What the transcript says of the end.
    pub open spec fn end_shown(self, result: RunResult) -> AppModel {
        match result {
            RunResult::Ended { goal_id, iterations, reason } => self.celled(
                EntryModel::RunEnd { at: self.stamp, goal_id: goal_id@, iterations, reason },
            ),
            RunResult::Taken(message) => self.error(
                message@ + " (Another process owns this session's run right now.)"@,
            ),
            RunResult::Failed(message) => self.error(message@),
        }
    }

    /// The run is done: it ends, and the head of the queue is next.
    pub open spec fn run_done(self, result: RunResult) -> AppModel {
        self.end_shown(result).run_finished().queue_drained().with(EffectModel::HandOffJobs)
    }

    /// The run could not start.
    pub open spec fn run_refused(self, error: Seq<char>) -> AppModel {
        self.error(error).run_finished()
    }

    /// Whether the session may claim the reports of settled jobs: a live run
    /// drains its own, and a second reader would steal them.
    pub open spec fn claims_reports(self) -> bool {
        !self.running
    }

    /// Background jobs settled: an idle session wakes up with their reports,
    /// and the queue goes with them.
    pub open spec fn jobs_handed_off(self, settled: Seq<ChatAsyncToolJob>) -> AppModel {
        if !self.claims_reports() || settled.len() == 0 {
            self
        } else {
            AppModel { queued: Seq::empty(), ..self }.info(JOB_WAKES@).run_begun(
                job_browser::handoff_text(settled),
            )
        }
    }
}

impl TuiApp {
    /// The run is over.
    pub fn finish_run(&mut self)
        requires
            old(self)@.wf(),
        ensures
            final(self)@ == old(self)@.run_finished(),
            final(self)@.wf(),
    {
        self.abortable = false;
        self.feed.pending_detail = None;
        self.drop_survey(RUN_ENDED_ASKING);
        let ghost stopped = self@;
        self.feed.flush_pending_cells(self.now, self.running, self.cols);
        self.feed.finalize_compact(self.cols);
        let ghost settled = self@.feed;
        self.running = false;
        self.feed.running_detail = None;
        self.feed.activity.clear();
        self.run_started_at = None;
        self.activity_next_tick = None;
        let escape = self.titles.finish(self.now);
        assert(self@ == (AppModel {
            feed: FeedModel {
                running_detail: None,
                activity: ActivityModel::cleared(),
                ..settled
            },
            running: false,
            run_started_at: None,
            activity_next_tick: None,
            titles: stopped.titles.rested(stopped.now),
            ..stopped
        }));
        self.show_title(escape);
    }

    fn show_end(&mut self, result: RunResult)
        requires
            old(self)@.wf(),
        ensures
            final(self)@ == old(self)@.end_shown(result),
            final(self)@.wf(),
    {
        match result {
            RunResult::Ended { goal_id, iterations, reason } => {
                let entry = TranscriptRunEndEntry {
                    at: self.stamp.clone(),
                    goal_id,
                    iterations,
                    reason,
                };
                self.push_cell(TranscriptEntry::RunEnd(entry));
            },
            RunResult::Taken(message) => {
                let said = concat2(
                    message.as_str(),
                    " (Another process owns this session's run right now.)",
                );
                self.push_error(said.as_str());
            },
            RunResult::Failed(message) => {
                self.push_error(message.as_str());
            },
        }
    }

    /// The run is done.
    pub fn on_run_done(&mut self, result: RunResult)
        requires
            old(self)@.wf(),
        ensures
            final(self)@ == old(self)@.run_done(result),
            final(self)@.wf(),
    {
        self.show_end(result);
        self.finish_run();
        self.drain_queue();
        self.emit(Effect::HandOffJobs);
    }

    /// The run could not start.
    pub fn refuse_run(&mut self, error: &str)
        requires
            old(self)@.wf(),
        ensures
            final(self)@ == old(self)@.run_refused(error@),
            final(self)@.wf(),
    {
        self.push_error(error);
        self.finish_run();
    }

    /// Whether the reports of settled jobs are to be claimed for the session.
    pub fn claims_reports(&self) -> (r: bool)
        ensures
            r == self@.claims_reports(),
    {
        !self.running
    }

    /// Hands the reports of settled background jobs to an idle session.
    pub fn handoff_settled_background_jobs(&mut self, settled: &Vec<ChatAsyncToolJob>)
        requires
            old(self)@.wf(),
        ensures
            final(self)@ == old(self)@.jobs_handed_off(settled@),
            final(self)@.wf(),
    {
        match idle_background_reports(self.running, settled) {
            Some(report) => {
                self.queued_prompts = Vec::new();
                assert(self@.queued =~= Seq::empty());
                self.push_info(JOB_WAKES);
                self.run_goal(report);
            },
            None => {},
        }
    }
}

// ---------------------------------------------------------------------------
// Events
// ---------------------------------------------------------------------------

/// An event of the live run.
pub struct HarnessEvent {
    pub kind: HarnessEventType,
    pub detail: String,
    pub iteration: i64,
    /// The survey that it asks.
    pub question_survey: Option<QuestionSurvey>,
    /// Whether it carries answers to a survey.
    pub has_answers: bool,
    pub tool_name: Option<String>,
}

impl AppModel {
    /// An event that asks opens its survey, if it is of the session at hand.
    pub open spec fn event_asked(self, event: HarnessEvent) -> AppModel {
        match event.question_survey {
            Some(s) => if event.kind == HarnessEventType::Question && self.run_session == Some(
                self.session.id@,
            ) {
                self.survey_begun(survey::question_models(s.questions@))
            } else {
                self
            },
            None => self,
        }
    }

    /// An event that carries the answers closes it.
    pub open spec fn event_answered(self, event: HarnessEvent) -> AppModel {
        if event.kind == HarnessEventType::HarnessOp && event.has_answers && text::opt_text(
            event.tool_name,
        ) == Some("ask_user"@) {
            self.survey_dropped("survey answered via drip --answer — the run continues"@)
        } else {
            self
        }
    }

    /// The event waits for the next flush.
    pub open spec fn event_queued(self, event: HarnessEvent) -> AppModel {
        AppModel {
            feed: FeedModel {
                pending_detail: Some("cycle "@ + text::signed_decimal(event.iteration as int)),
                ..self.feed
            }.queued(
                EntryModel::Event(
                    EventModel {
                        at: self.stamp,
                        data: None,
                        detail: event.detail@,
                        goal_id: LIVE_GOAL@,
                        iteration: event.iteration,
                        kind: event.kind,
                    },
                ),
                self.now,
            ),
            ..self
        }
    }

    /// An event.
    pub open spec fn event_taken(self, event: HarnessEvent) -> AppModel {
        self.event_asked(event).event_answered(event).event_queued(event)
    }
}

impl TuiApp {
    fn queue_event(&mut self, detail: String, iteration: i64, kind: HarnessEventType)
        requires
            old(self)@.wf(),
        ensures
            forall|event: HarnessEvent|
                event.detail == detail && event.iteration == iteration && event.kind == kind
                    ==> final(self)@ == #[trigger] old(self)@.event_queued(event),
            final(self)@.wf(),
    {
        let cycle = concat2("cycle ", format_signed(iteration).as_str());
        self.feed.pending_detail = Some(cycle);
        let entry = TranscriptEventEntry {
            at: self.stamp.clone(),
            data: None,
            detail,
            goal_id: LIVE_GOAL.to_string(),
            iteration,
            kind,
        };
        self.feed.queue_cell(TranscriptEntry::Event(entry), self.now);
    }

    /// Takes in an event of the live run.
    pub fn on_event(&mut self, event: HarnessEvent)
        requires
            old(self)@.wf(),
        ensures
            final(self)@ == old(self)@.event_taken(event),
            final(self)@.wf(),
    {
        let of_session = match &self.run_session_id {
            Some(id) => same(id.as_str(), self.session.id.as_str()),
            None => false,
        };
        match event.question_survey {
            Some(s) => {
                if event.kind == HarnessEventType::Question && of_session {
                    self.begin_survey(s);
                }
            },
            None => {},
        }
        let asked = text::same_opt(&event.tool_name, "ask_user");
        if event.kind == HarnessEventType::HarnessOp && event.has_answers && asked {
            self.drop_survey("survey answered via drip --answer — the run continues");
        }
        self.queue_event(event.detail, event.iteration, event.kind);
        assert(self@ == old(self)@.event_asked(event).event_answered(event).event_queued(event));
    }

    /// Takes in the paths that a mention may mean; those of an older text are
    /// dropped. Says whether they were taken.
    pub fn adopt_mentions(&mut self, seq: u64, paths: Vec<String>) -> (r: bool)
        requires
            old(self)@.wf(),
        ensures
            r == (seq == old(self)@.composer.mention_seq),
            final(self)@ == (if r {
                old(self)@.typed(
                    ComposerModel { mentions: text::texts(paths@), ..old(self)@.composer },
                )
            } else {
                old(self)@
            }),
            final(self)@.wf(),
    {
        self.composer.adopt_mentions(seq, paths)
    }
}

// ---------------------------------------------------------------------------
// Laws
// ---------------------------------------------------------------------------

/// When a run ends, nothing of it blinks on: no row, no clock, no animation, no
/// survey, and nothing waits.
pub proof fn law_the_end_of_a_run_clears_its_traces(app: AppModel)
    ensures
        ({
            let over = app.run_finished();
            &&& !over.running
            &&& !over.abortable
            &&& over.survey is None
            &&& over.run_started_at is None
            &&& over.activity_next_tick is None
            &&& over.feed.activity == ActivityModel::cleared()
            &&& over.feed.running_detail is None
            &&& over.feed.pending.len() == 0
            &&& over.titles.next_tick is None
            &&& over.run_rows().len() == 0
        }),
{
}

/// A run that ends takes the head of the queue, in order, as the next goal.
pub proof fn law_the_queue_runs_in_order(app: AppModel, result: RunResult)
    requires
        app.queued.len() > 0,
    ensures
        app.run_done(result).queued == app.queued.skip(1),
        app.run_done(result).running == !text::is_blank(app.queued[0]),
{
    lemma_the_end_keeps_the_queue(app, result);
}

proof fn lemma_the_end_keeps_the_queue(app: AppModel, result: RunResult)
    ensures
        app.end_shown(result).run_finished().queued == app.queued,
        !app.end_shown(result).run_finished().running,
{
    let shown = app.end_shown(result);
    assert(shown.queued == app.queued);
    lemma_finishing_keeps_the_queue(shown);
}

proof fn lemma_finishing_keeps_the_queue(app: AppModel)
    ensures
        app.run_finished().queued == app.queued,
        !app.run_finished().running,
{
}

/// A survey of another session's run never opens here.
pub proof fn law_a_late_question_opens_nothing(app: AppModel, event: HarnessEvent)
    requires
        app.run_session != Some(app.session.id@),
    ensures
        app.event_asked(event) == app,
{
}

/// While a run is live, its reports are its own: none is claimed, and nothing
/// wakes the session.
pub proof fn law_a_live_run_keeps_its_reports(app: AppModel, settled: Seq<ChatAsyncToolJob>)
    requires
        app.running,
    ensures
        !app.claims_reports(),
        app.jobs_handed_off(settled) == app,
{
}

/// The end of a run is shown as it was: how many cycles it took and why it
/// ended, or the error that ended it; where another process has the session,
/// that is said as well.
pub proof fn law_the_end_is_shown_as_it_was(
    app: AppModel,
    goal_id: String,
    iterations: i64,
    reason: HarnessRunReason,
    message: String,
)
    ensures
        app.end_shown(RunResult::Ended { goal_id, iterations, reason }).feed.cells
            == app.feed.cells + app.feed.pending + seq![
            EntryModel::RunEnd { at: app.stamp, goal_id: goal_id@, iterations, reason },
        ],
        app.end_shown(RunResult::Failed(message)) == app.error(message@),
        app.end_shown(RunResult::Taken(message)) == app.error(
            message@ + " (Another process owns this session's run right now.)"@,
        ),
{
    let end = EntryModel::RunEnd { at: app.stamp, goal_id: goal_id@, iterations, reason };
    assert(app.feed.cells + app.feed.pending.push(end) =~= app.feed.cells + app.feed.pending + seq![
        end,
    ]);
}

/// A run that ends hands on: the reports of its jobs are asked for last, and
/// with an empty queue nothing else starts. A run that could not start ends
/// with its error.
pub proof fn law_a_run_that_ends_hands_on_its_jobs(app: AppModel, result: RunResult, error: Seq<char>)
    ensures
        app.run_done(result).effects.last() == EffectModel::HandOffJobs,
        app.queued.len() == 0 ==> !app.run_done(result).running,
        app.run_refused(error) == app.error(error).run_finished(),
        !app.run_refused(error).running,
{
    lemma_the_end_keeps_the_queue(app, result);
    lemma_finishing_keeps_the_queue(app.error(error));
}

/// The next goal of the queue starts as it was queued.
pub proof fn law_the_next_goal_starts_as_it_was_queued(app: AppModel, result: RunResult)
    requires
        app.queued.len() > 0,
        !text::is_blank(app.queued[0]),
    ensures
        ({
            let next = app.run_done(result);
            let n = next.effects.len() as int;
            &&& n >= 2
            &&& next.effects[n - 2] matches EffectModel::StartRun(goal, images) && goal
                == app.queued[0]
        }),
{
    lemma_the_end_keeps_the_queue(app, result);
}

/// An idle session wakes up with the reports of the jobs that settled, as one
/// goal; the queue goes with them. Without a report nothing happens.
pub proof fn law_settled_jobs_wake_an_idle_session(app: AppModel, settled: Seq<ChatAsyncToolJob>)
    requires
        !app.running,
    ensures
        settled.len() == 0 ==> app.jobs_handed_off(settled) == app,
        settled.len() > 0 ==> {
            let next = app.jobs_handed_off(settled);
            &&& next.running
            &&& next.queued.len() == 0
            &&& next.effects.last() == EffectModel::StartRun(
                job_browser::handoff_text(settled),
                app.attachments,
            )
        },
{
}

/// Every event of a run reaches the feed, in order and under its own kind, with
/// its cycle and its detail; it is shown in the status line as well.
pub proof fn law_every_event_reaches_the_feed(app: AppModel, event: HarnessEvent)
    ensures
        ({
            let next = app.event_queued(event);
            let entry = EntryModel::Event(
                EventModel {
                    at: app.stamp,
                    data: None,
                    detail: event.detail@,
                    goal_id: "live"@,
                    iteration: event.iteration,
                    kind: event.kind,
                },
            );
            &&& next.feed.pending == app.feed.pending.push(entry)
            &&& next.feed.pending_detail == Some(
                "cycle "@ + text::signed_decimal(event.iteration as int),
            )
            &&& next.feed.cells == app.feed.cells
            &&& next.effects == app.effects
            &&& app.event_taken(event) == app.event_asked(event).event_answered(event).event_queued(
                event,
            )
        }),
{
}

/// A question of the session's own run opens its survey; an answer that came
/// from elsewhere closes the one that is open, and no other event does.
pub proof fn law_questions_and_answers_are_heard(app: AppModel, event: HarnessEvent)
    ensures
        event.question_survey matches Some(s) ==> event.kind == HarnessEventType::Question
            && app.run_session == Some(app.session.id@) ==> app.event_asked(event)
            == app.survey_begun(survey::question_models(s.questions@)),
        event.kind != HarnessEventType::Question || event.question_survey is None
            ==> app.event_asked(event) == app,
        event.kind == HarnessEventType::HarnessOp && event.has_answers && event.tool_name is Some
            && event.tool_name->0@ == "ask_user"@ ==> app.event_answered(event)
            == app.survey_dropped("survey answered via drip --answer — the run continues"@),
        event.kind != HarnessEventType::HarnessOp || !event.has_answers || event.tool_name is None
            || event.tool_name->0@ != "ask_user"@ ==> app.event_answered(event) == app,
{
}

/// The goal of a run is shown as it was typed, with its images and what it
/// mentions; each thing that is wrong with a mention is said before it.
pub proof fn law_a_goal_is_shown_as_it_was_typed(
    app: AppModel,
    goal: Seq<char>,
    images: Seq<Seq<char>>,
    mentions: Seq<Seq<char>>,
    issue: Seq<char>,
)
    ensures
        app.goal_shown(goal, images, mentions, Seq::empty()).feed.cells == app.feed.cells
            + app.feed.pending + seq![
            EntryModel::Goal { at: app.stamp, goal_id: "live"@, images, mentions, text: goal },
        ],
        app.goal_shown(goal, images, mentions, seq![issue]).feed.cells == app.feed.cells
            + app.feed.pending + seq![
            EntryModel::Info { at: app.stamp, text: "mention: "@ + issue },
            EntryModel::Goal { at: app.stamp, goal_id: "live"@, images, mentions, text: goal },
        ],
{
    let entry = EntryModel::Goal {
        at: app.stamp,
        goal_id: "live"@,
        images,
        mentions,
        text: goal,
    };
    let note = EntryModel::Info { at: app.stamp, text: "mention: "@ + issue };
    let waited = app.feed.cells + app.feed.pending;
    assert(app.feed.cells + app.feed.pending.push(entry) =~= waited + seq![entry]);
    assert(app.feed.cells + app.feed.pending.push(note) =~= waited.push(note));
    assert(seq![issue].drop_last() =~= Seq::<Seq<char>>::empty());
    assert(app.told("mention: "@, seq![issue].drop_last()) == app);
    assert(app.told("mention: "@, seq![issue]) == app.info("mention: "@ + issue));
    let told = app.info("mention: "@ + issue);
    assert(told.feed.pending.len() == 0);
    assert(told.feed.cells + told.feed.pending.push(entry) =~= waited + seq![note, entry]);
}

/// Notices are said one after the other, each behind the same words.
pub proof fn law_every_notice_is_said(
    app: AppModel,
    prefix: Seq<char>,
    notes: Seq<Seq<char>>,
    note: Seq<char>,
)
    ensures
        app.told(prefix, Seq::empty()) == app,
        app.told(prefix, notes.push(note)) == app.told(prefix, notes).info(prefix + note),
{
    assert(notes.push(note).drop_last() =~= notes);
}

/// What a run says of its set-up: the servers that it spawns, or that all are
/// off, between the warnings and what is wrong with the roles.
pub proof fn law_a_run_tells_its_servers(app: AppModel, names: Seq<Seq<char>>)
    ensures
        names.len() > 0 ==> app.setup_told(Seq::empty(), names, Seq::empty()) == app.info(
            "mcp: spawning "@ + text::joined(names, ", "@) + " for this run"@,
        ),
        names.len() == 0 && app.gate is Some && app.gate->0.len() == 0 ==> app.setup_told(
            Seq::empty(),
            names,
            Seq::empty(),
        ) == app.info("mcp: off for this run (/mcp roles re-enables role opt-ins)"@),
        names.len() == 0 && app.gate is None ==> app.setup_told(Seq::empty(), names, Seq::empty())
            == app,
        app.launched().abortable,
{
}

/// The title of a run is shown, and where none was asked for yet, for a session
/// without a name on a terminal, one is asked for, once and for this goal.
pub proof fn law_a_title_is_asked_for_once(
    app: AppModel,
    goal: Seq<char>,
    shows: bool,
    persisted: Option<Seq<char>>,
)
    ensures
        ({
            let next = app.title_begun(goal, shows, persisted);
            let asks = persisted is None && shows && !app.titles.requested;
            &&& asks ==> next.titles.requested && next.effects.last() == EffectModel::RequestTitle(
                app.titles.title_epoch,
                goal,
            )
            &&& !asks ==> next.titles.requested == app.titles.requested
            &&& next.titles.pane == app.titles.spinning(goal, shows, persisted, app.now).pane
            &&& !shows ==> next.effects == app.effects
        }),
{
}

/// What the choice of skills came to is told: why it is off, its warnings, and
/// what it chose.
pub proof fn law_the_choice_of_skills_is_told(
    app: AppModel,
    error: Seq<char>,
    chosen: Seq<char>,
    warning: Seq<char>,
)
    ensures
        app.classifier_told(None, Seq::empty(), None) == app,
        app.classifier_told(None, Seq::empty(), Some(chosen)) == app.info(chosen),
        app.classifier_told(Some(error), Seq::empty(), None) == app.error(
            "classifier: tokio runtime unavailable ("@ + error
                + ") — skill classification is off for this run"@,
        ),
        app.classifier_told(None, seq![warning], None) == app.info(warning),
{
    law_every_notice_is_said(app, Seq::empty(), Seq::empty(), warning);
    assert(Seq::<Seq<char>>::empty().push(warning) =~= seq![warning]);
    assert(Seq::<char>::empty() + warning =~= warning);
}

/// At the end of a run the title rests, and the terminal is told where that
/// changes what it shows.
pub proof fn law_the_title_rests_at_the_end(app: AppModel)
    requires
        app.survey is None,
    ensures
        app.run_finished().titles == app.titles.rested(app.now),
        app.titles.rested_escape(app.now) is None ==> app.run_finished().effects == app.effects,
        app.titles.rested_escape(app.now) matches Some(e) ==> app.run_finished().effects
            == app.effects.push(EffectModel::Title(e)),
        app.run_finished().feed.cells == app.feed.cells + app.feed.pending,
{
}

/// What is said when a job wakes the session, and when a run ends under its
/// survey.
pub proof fn law_what_happened_is_said(app: AppModel, settled: Seq<ChatAsyncToolJob>)
    requires
        !app.running,
        settled.len() > 0,
    ensures
        ({
            let n = app.effects.len() as int;
            let next = app.jobs_handed_off(settled);
            &&& next.effects.len() == n + 2
            &&& next.effects[n] == EffectModel::Persist(
                EntryModel::Info {
                    at: app.stamp,
                    text: "a background job finished while the session was idle - waking it up with the result"@,
                },
            )
        }),
        RUN_ENDED_ASKING@
            == "the run ended before the survey was answered — resume to be asked again"@,
{
}

} // verus!
