//! Surveys in the session: how one opens, how its answers are gathered, and
//! how it ends.

use vstd::prelude::*;
use crate::paths;
use crate::paths::with_file_name;
use crate::text;
use crate::text::{concat3, join_texts};
use crate::transcript::EntryModel;
use crate::tui::app::effects::{Effect, EffectModel};
use crate::tui::app::overlay::OverlayKind;
use crate::tui::app::state::{AppModel, TuiApp};
use crate::tui::app::survey;
use crate::tui::app::survey::{QuestionModel, QuestionSurvey, SurveyModel, SurveyState};

verus! {

/// What the operator reads when a survey is dismissed by hand.
pub const SURVEY_DISMISSED: &'static str =
    "survey dismissed — answer with `drip --answer` or the run ends at its ask timeout";

/// The file that answers are written to; the asking run polls it.
pub const ANSWERS_FILE: &'static str = "answers.jsonl";

/// Where the answers to a session's surveys go: beside its state.
pub open spec fn answers_beside(state_path: Seq<char>) -> Seq<char> {
    paths::beside(state_path, ANSWERS_FILE@)
}

/// Where the answers to a session's surveys go: beside its state.
pub fn answers_path(state_path: &str) -> (r: String)
    ensures
        r@ == answers_beside(state_path@),
{
    with_file_name(state_path, ANSWERS_FILE)
}

// ---------------------------------------------------------------------------
// Writing
// ---------------------------------------------------------------------------

/// How often a line is appended before its failure is reported.
pub const APPEND_ATTEMPTS: usize = 3;

/// How long to wait between two attempts, in milliseconds.
pub const APPEND_PAUSE_MS: u64 = 100;

/// What follows an attempt to append a line of answers.
#[derive(Debug, PartialEq)]
pub enum AppendStep {
    /// Another attempt, after a pause.
    TryAgain { pause_ms: u64 },
    /// What became of it: the last failure, or none.
    Report(Option<String>),
}

/// What follows an attempt.
pub open spec fn next_step(attempts: nat, failure: Option<String>) -> AppendStep {
    match failure {
        Some(error) => if attempts < APPEND_ATTEMPTS {
            AppendStep::TryAgain { pause_ms: APPEND_PAUSE_MS }
        } else {
            AppendStep::Report(Some(error))
        },
        None => AppendStep::Report(None),
    }
}

/// What follows the attempt that is the `attempts`th: a failure is worth another
/// one while there are any left.
pub fn after_append(attempts: usize, failure: Option<String>) -> (r: AppendStep)
    ensures
        match failure {
            Some(error) => if attempts < APPEND_ATTEMPTS {
                r == (AppendStep::TryAgain { pause_ms: APPEND_PAUSE_MS })
            } else {
                r == AppendStep::Report(Some(error))
            },
            None => r == AppendStep::Report(None),
        },
        r == next_step(attempts as nat, failure),
{
    match failure {
        Some(error) => if attempts < APPEND_ATTEMPTS {
            AppendStep::TryAgain { pause_ms: APPEND_PAUSE_MS }
        } else {
            AppendStep::Report(Some(error))
        },
        None => AppendStep::Report(None),
    }
}

// ---------------------------------------------------------------------------
// The survey
// ---------------------------------------------------------------------------

impl AppModel {
    /// The question that the survey asks next, on the screen.
    pub open spec fn question_opened(self) -> AppModel {
        match self.survey {
            Some(s) => if s.asks() {
                AppModel { overlay: Some(s.question_overlay()), ..self }
            } else {
                self
            },
            None => self,
        }
    }

    /// A run asks. The same survey asked again keeps what was answered.
    pub open spec fn survey_begun(self, questions: Seq<QuestionModel>) -> AppModel {
        if questions.len() == 0 || (self.survey is Some && self.survey->0.questions == questions) {
            self
        } else {
            let told = if self.survey is Some {
                self.info("a new clarification survey replaced the one in progress"@)
            } else {
                self
            };
            AppModel {
                survey: Some(SurveyModel::begun(questions, answers_beside(self.paths.state_path@))),
                ..told
            }.title_waiting(true).question_opened()
        }
    }

    /// An answer is given; once no question is left the answers are to be
    /// written.
    pub open spec fn survey_answered(
        self,
        choice: Option<Seq<char>>,
        other: Option<Seq<char>>,
    ) -> AppModel {
        match self.survey {
            Some(s) => {
                let next = AppModel { survey: Some(s.answered(choice, other)), ..self };
                if s.answered(choice, other).asks() {
                    next.question_opened()
                } else {
                    next.with(EffectModel::WriteAnswers)
                }
            },
            None => self,
        }
    }

    /// The survey is over: nothing asks any more.
    pub open spec fn survey_closed(self) -> AppModel {
        AppModel { survey: None, overlay: None, ..self }.title_waiting(false)
    }

    /// What became of writing the answers. Where it failed, the last question
    /// is asked again.
    pub open spec fn answers_written(self, failure: Option<Seq<char>>) -> AppModel {
        match (self.survey, failure) {
            (None, _) => self,
            (Some(_), None) => self.survey_closed().info(
                "clarification answers recorded — the run continues"@,
            ),
            (Some(s), Some(error)) => {
                let told = self.error(
                    "could not record survey answers: "@ + error
                        + " — re-answer the last question to retry"@,
                );
                AppModel { survey: Some(s.retracted()), ..told }.question_opened()
            },
        }
    }

    /// What became of writing a reply to the whole survey. Where it failed, the
    /// reply is back in the composer.
    pub open spec fn chat_written(self, reply: Seq<char>, failure: Option<Seq<char>>) -> AppModel {
        match (self.survey, failure) {
            (None, _) => self,
            (Some(_), None) => self.survey_closed().info(
                "chat reply recorded — the run continues"@,
            ),
            (Some(_), Some(error)) => {
                let told = self.error(
                    "could not record the chat reply: "@ + error + " — press Enter to retry"@,
                );
                told.typed(told.composer.edited(reply, reply.len() as int))
            },
        }
    }

    /// A survey that nobody will answer here goes away, with a word about it.
    pub open spec fn survey_dropped(self, message: Seq<char>) -> AppModel {
        match self.survey {
            Some(s) => AppModel {
                survey: None,
                overlay: match self.overlay {
                    Some(o) => if o.kind == OverlayKind::Question {
                        None
                    } else {
                        self.overlay
                    },
                    None => None,
                },
                ..self
            }.title_waiting(false).info(message),
            None => self,
        }
    }

    /// The operator dismisses the survey.
    pub open spec fn survey_dismissed(self) -> AppModel {
        AppModel { survey: None, ..self }.title_waiting(false).info(SURVEY_DISMISSED@)
    }

    /// An option's mark flips.
    pub open spec fn pick_toggled(self, index: int) -> AppModel {
        match self.survey {
            Some(s) => AppModel { survey: Some(s.toggled(index)), ..self },
            None => self,
        }
    }

    /// The marked options become the answer.
    pub open spec fn picks_confirmed(self) -> AppModel {
        match self.survey {
            Some(s) => if s.asks() && s.questions[s.current].multiple {
                if s.marked().len() == 0 {
                    self.info("mark at least one option with space before confirming"@)
                } else {
                    self.survey_answered(Some(text::joined(s.marked(), ", "@)), None)
                }
            } else {
                self
            },
            None => self,
        }
    }

    /// The whole survey is handed back to the operator in prose.
    pub open spec fn chat_begun(self) -> AppModel {
        match self.survey {
            Some(s) => AppModel { survey: Some(s.chatting()), overlay: None, ..self }.info(
                survey::chat_text(s.questions),
            ),
            None => self,
        }
    }

    /// Free text is asked for instead of a choice.
    pub open spec fn other_asked(self) -> AppModel {
        match self.survey {
            Some(s) => AppModel {
                survey: Some(SurveyModel { other_input: Some(Seq::empty()), ..s }),
                ..self
            },
            None => self,
        }
    }

    /// Whether free text is being typed for the survey.
    pub open spec fn takes_other(self) -> bool {
        self.survey is Some && self.survey->0.other_input is Some
    }

    /// Whether the next message answers the whole survey.
    pub open spec fn chats(self) -> bool {
        self.survey is Some && self.survey->0.chat_mode
    }
}

impl TuiApp {
    /// Shows the question that the survey asks next.
    pub fn open_survey_question(&mut self)
        ensures
            final(self)@ == old(self)@.question_opened(),
    {
        match &self.survey {
            Some(s) => {
                if s.asks() {
                    self.overlay = Some(s.open_survey_question());
                }
            },
            None => {},
        }
        assert(self@ =~= old(self)@.question_opened());
    }

    /// A run asks the operator.
    pub fn begin_survey(&mut self, survey: QuestionSurvey)
        requires
            old(self)@.wf(),
        ensures
            final(self)@ == old(self)@.survey_begun(
                survey::question_models(survey.questions@),
            ),
            final(self)@.wf(),
    {
        if survey.questions.len() == 0 {
            return ;
        }
        let mut replaces = false;
        match &self.survey {
            Some(live) => {
                if live.is_survey(&survey) {
                    return ;
                }
                replaces = true;
            },
            None => {},
        }
        if replaces {
            self.push_info("a new clarification survey replaced the one in progress");
        }
        let path = answers_path(self.paths.state_path.as_str());
        self.survey = Some(SurveyState::begin(survey, path));
        self.set_title_waiting(true);
        self.open_survey_question();
    }

    /// Takes an answer to the question at hand.
    pub fn record_survey_answer(&mut self, choice: Option<String>, other: Option<String>)
        requires
            old(self)@.wf(),
        ensures
            final(self)@ == old(self)@.survey_answered(
                text::opt_text(choice),
                text::opt_text(other),
            ),
            final(self)@.wf(),
    {
        let done = match &mut self.survey {
            Some(s) => s.record_survey_answer(choice, other),
            None => {
                return ;
            },
        };
        if done {
            self.emit(Effect::WriteAnswers);
        } else {
            self.open_survey_question();
        }
    }

    fn close_survey(&mut self)
        requires
            old(self)@.wf(),
        ensures
            final(self)@ == old(self)@.survey_closed(),
            final(self)@.wf(),
    {
        self.survey = None;
        self.overlay = None;
        self.set_title_waiting(false);
    }

    /// Ends the survey once its answers are written, or asks the last question
    /// again where they could not be.
    pub fn finish_survey(&mut self, failure: Option<String>)
        requires
            old(self)@.wf(),
        ensures
            final(self)@ == old(self)@.answers_written(text::opt_text(failure)),
            final(self)@.wf(),
    {
        if self.survey.is_none() {
            return ;
        }
        match failure {
            None => {
                self.close_survey();
                self.push_info("clarification answers recorded — the run continues");
            },
            Some(error) => {
                let said = concat3(
                    "could not record survey answers: ",
                    error.as_str(),
                    " — re-answer the last question to retry",
                );
                self.push_error(said.as_str());
                match &mut self.survey {
                    Some(s) => {
                        s.retract();
                    },
                    None => {},
                }
                self.open_survey_question();
            },
        }
    }

    /// Hands a reply to the whole survey over for writing.
    pub fn record_chat_reply(&mut self, reply: String)
        requires
            old(self)@.wf(),
        ensures
            final(self)@ == (if old(self)@.survey is Some {
                old(self)@.with(EffectModel::WriteChat(reply@))
            } else {
                old(self)@
            }),
            final(self)@.wf(),
    {
        if self.survey.is_some() {
            self.emit(Effect::WriteChat(reply));
        }
    }

    /// Ends the survey once the reply is written, or puts the reply back in the
    /// composer where it could not be.
    pub fn finish_chat(&mut self, reply: String, failure: Option<String>)
        requires
            old(self)@.wf(),
        ensures
            final(self)@ == old(self)@.chat_written(reply@, text::opt_text(failure)),
            final(self)@.wf(),
    {
        if self.survey.is_none() {
            return ;
        }
        match failure {
            None => {
                self.close_survey();
                self.push_info("chat reply recorded — the run continues");
            },
            Some(error) => {
                let said = concat3(
                    "could not record the chat reply: ",
                    error.as_str(),
                    " — press Enter to retry",
                );
                self.push_error(said.as_str());
                let cursor: usize = reply.as_str().unicode_len();
                self.composer.apply_edit(reply, cursor);
            },
        }
    }

    /// Tears a survey and its picker down: the session changed, or its run
    /// ended.
    pub fn drop_survey(&mut self, message: &str)
        requires
            old(self)@.wf(),
        ensures
            final(self)@ == old(self)@.survey_dropped(message@),
            final(self)@.wf(),
    {
        if self.survey.is_none() {
            return ;
        }
        self.survey = None;
        let mut asks = false;
        match &self.overlay {
            Some(o) => {
                match o.kind {
                    OverlayKind::Question => {
                        asks = true;
                    },
                    _ => {},
                }
            },
            None => {},
        }
        if asks {
            self.overlay = None;
        }
        self.set_title_waiting(false);
        self.push_info(message);
    }

    /// The operator dismisses the survey.
    pub fn dismiss_survey(&mut self)
        requires
            old(self)@.wf(),
        ensures
            final(self)@ == old(self)@.survey_dismissed(),
            final(self)@.wf(),
    {
        self.survey = None;
        self.set_title_waiting(false);
        self.push_info(SURVEY_DISMISSED);
    }

    /// Flips an option's mark; a row that is no option changes nothing.
    pub fn toggle_multi_pick(&mut self, index: usize)
        requires
            old(self)@.wf(),
        ensures
            final(self)@ == old(self)@.pick_toggled(index as int),
            final(self)@.wf(),
    {
        match &mut self.survey {
            Some(s) => {
                s.toggle_multi_pick(index);
            },
            None => {},
        }
    }

    /// Records the marked options as one answer.
    pub fn confirm_multi_picks(&mut self)
        requires
            old(self)@.wf(),
        ensures
            final(self)@ == old(self)@.picks_confirmed(),
            final(self)@.wf(),
    {
        let labels: Vec<String> = match &self.survey {
            Some(s) => {
                if !s.asks() || !s.survey.questions[s.current].multiple {
                    return ;
                }
                s.marked_labels()
            },
            None => {
                return ;
            },
        };
        assert(text::texts(labels@).len() == labels@.len());
        if labels.len() == 0 {
            self.push_info("mark at least one option with space before confirming");
            return ;
        }
        let joined = join_texts(&labels, ", ");
        self.record_survey_answer(Some(joined), None);
    }

    /// Hands the whole survey back to the operator: the next message answers
    /// every question.
    pub fn begin_survey_chat(&mut self)
        requires
            old(self)@.wf(),
        ensures
            final(self)@ == old(self)@.chat_begun(),
            final(self)@.wf(),
    {
        let said = match &mut self.survey {
            Some(s) => s.begin_survey_chat(),
            None => {
                return ;
            },
        };
        self.overlay = None;
        self.push_info(said.as_str());
    }

    /// Asks for free text instead of a choice.
    pub fn ask_other(&mut self)
        requires
            old(self)@.wf(),
        ensures
            final(self)@ == old(self)@.other_asked(),
            final(self)@.wf(),
    {
        match &mut self.survey {
            Some(s) => {
                s.other_input = Some(String::new());
            },
            None => {},
        }
        assert(self@ =~= old(self)@.other_asked());
    }
}

// ---------------------------------------------------------------------------
// Laws
// ---------------------------------------------------------------------------

/// A survey that is asked again while it is answered keeps what was answered.
pub proof fn law_asking_again_keeps_the_answers(app: AppModel, questions: Seq<QuestionModel>)
    requires
        app.survey is Some,
        app.survey->0.questions == questions,
    ensures
        app.survey_begun(questions) == app,
{
}

/// A reply that could not be written is not lost: it is back in the composer,
/// and the survey still waits for it.
pub proof fn law_a_failed_reply_is_kept(app: AppModel, reply: Seq<char>, error: Seq<char>)
    requires
        app.survey is Some,
    ensures
        app.chat_written(reply, Some(error)).composer.text == reply,
        app.chat_written(reply, Some(error)).survey == app.survey,
        app.chat_written(reply, Some(error)).overlay == app.overlay,
{
}

/// Answers that could not be written are not lost: the last question is asked
/// again, and every answer before it stays.
pub proof fn law_failed_answers_are_kept(
    app: AppModel,
    choice: Option<Seq<char>>,
    other: Option<Seq<char>>,
    error: Seq<char>,
)
    requires
        app.survey is Some,
        app.survey->0.asks(),
        !app.survey->0.answered(choice, other).asks(),
    ensures
        ({
            let failed = app.survey_answered(choice, other).answers_written(Some(error));
            &&& failed.survey is Some
            &&& failed.survey->0.answers == app.survey->0.answers
            &&& failed.survey->0.current == app.survey->0.current
            &&& failed.overlay == Some(failed.survey->0.question_overlay())
        }),
{
    let s = app.survey->0;
    assert(s.answered(choice, other).retracted().answers =~= s.answers);
}

/// Answers go where the survey was asked from, whatever is open later: no
/// answer, mark or retry changes the path.
pub proof fn law_answers_keep_their_path(
    s: SurveyModel,
    choice: Option<Seq<char>>,
    other: Option<Seq<char>>,
    index: int,
)
    ensures
        s.answered(choice, other).answers_path == s.answers_path,
        s.retracted().answers_path == s.answers_path,
        s.toggled(index).answers_path == s.answers_path,
        s.chatting().answers_path == s.answers_path,
{
}

/// An answer leads to the next question, which is shown; behind the last one
/// the answers are to be written, and nothing else happens.
pub proof fn law_an_answer_leads_to_the_next_question(
    app: AppModel,
    choice: Option<Seq<char>>,
    other: Option<Seq<char>>,
)
    requires
        app.survey is Some,
        app.survey->0.wf(),
    ensures
        ({
            let s = app.survey->0;
            let next = app.survey_answered(choice, other);
            &&& next.survey is Some
            &&& next.survey->0.answers == s.answers.push((s.current, choice, other))
            &&& next.survey->0.current == s.current + 1
            &&& s.current + 1 < s.questions.len() ==> {
                &&& next.overlay == Some(next.survey->0.question_overlay())
                &&& next.effects == app.effects
            }
            &&& s.current + 1 >= s.questions.len() ==> {
                &&& next.overlay == app.overlay
                &&& next.effects == app.effects.push(EffectModel::WriteAnswers)
            }
            &&& next.composer == app.composer
            &&& next.running == app.running
        }),
{
}

/// A run that asks is heard: its first question is shown, the survey holds all
/// of its questions, and the answers will go beside the session's state. No
/// question is no survey.
pub proof fn law_a_question_is_heard(app: AppModel, questions: Seq<QuestionModel>)
    requires
        app.survey is None || app.survey->0.questions != questions,
    ensures
        questions.len() == 0 ==> app.survey_begun(questions) == app,
        questions.len() > 0 ==> ({
            let next = app.survey_begun(questions);
            &&& next.survey is Some
            &&& next.survey->0.questions == questions
            &&& next.survey->0.current == 0
            &&& next.survey->0.answers.len() == 0
            &&& next.survey->0.answers_path == paths::beside(
                app.paths.state_path@,
                "answers.jsonl"@,
            )
            &&& next.overlay == Some(next.survey->0.question_overlay())
            &&& next.titles == app.titles.waiting(true, app.now)
            &&& next.composer == app.composer
            &&& next.running == app.running
        }),
{
}

/// Answers that were written end the survey: nothing asks any more, and it is
/// said that the run goes on. The same holds of a reply to the whole survey.
pub proof fn law_written_answers_end_the_survey(app: AppModel, reply: Seq<char>)
    requires
        app.survey is Some,
    ensures
        ({
            let done = app.answers_written(None);
            let told = app.chat_written(reply, None);
            &&& done.survey is None
            &&& done.overlay is None
            &&& done.effects.last() == EffectModel::Persist(
                EntryModel::Info {
                    at: app.stamp,
                    text: "clarification answers recorded — the run continues"@,
                },
            )
            &&& told.survey is None
            &&& told.overlay is None
            &&& told.effects.last() == EffectModel::Persist(
                EntryModel::Info {
                    at: app.stamp,
                    text: "chat reply recorded — the run continues"@,
                },
            )
        }),
{
}

/// A failure to write is told with its reason, and so is what to do about it.
pub proof fn law_a_failure_to_write_is_told(app: AppModel, reply: Seq<char>, error: Seq<char>)
    requires
        app.survey is Some,
    ensures
        app.answers_written(Some(error)).effects == app.effects.push(
            EffectModel::Persist(
                EntryModel::Error {
                    at: app.stamp,
                    text: "could not record survey answers: "@ + error
                        + " — re-answer the last question to retry"@,
                },
            ),
        ),
        app.chat_written(reply, Some(error)).effects == app.effects.push(
            EffectModel::Persist(
                EntryModel::Error {
                    at: app.stamp,
                    text: "could not record the chat reply: "@ + error
                        + " — press Enter to retry"@,
                },
            ),
        ),
{
}

/// A survey that is dismissed is gone, and it is said how to answer it still.
/// One that is dropped takes its own picker along and no other.
pub proof fn law_a_dismissed_survey_is_gone(app: AppModel, message: Seq<char>)
    ensures
        app.survey_dismissed().survey is None,
        app.survey_dismissed().effects.last() == EffectModel::Persist(
            EntryModel::Info {
                at: app.stamp,
                text: "survey dismissed — answer with `drip --answer` or the run ends at its ask timeout"@,
            },
        ),
        app.survey is None ==> app.survey_dropped(message) == app,
        app.survey is Some ==> {
            &&& app.survey_dropped(message).survey is None
            &&& app.survey_dropped(message).effects.last() == EffectModel::Persist(
                EntryModel::Info { at: app.stamp, text: message },
            )
            &&& app.overlay is Some && app.overlay->0.kind == OverlayKind::Question
                ==> app.survey_dropped(message).overlay is None
            &&& app.overlay is Some && app.overlay->0.kind != OverlayKind::Question
                ==> app.survey_dropped(message).overlay == app.overlay
        },
{
}

/// The marked options are one answer, with a comma between them; without a mark
/// nothing is answered and it is said what to do.
pub proof fn law_marked_options_are_one_answer(app: AppModel)
    requires
        app.survey is Some,
        app.survey->0.asks(),
        app.survey->0.questions[app.survey->0.current].multiple,
    ensures
        ({
            let marked = app.survey->0.marked();
            &&& marked.len() > 0 ==> app.picks_confirmed() == app.survey_answered(
                Some(text::joined(marked, ", "@)),
                None,
            )
            &&& marked.len() == 0 ==> app.picks_confirmed() == app.info(
                "mark at least one option with space before confirming"@,
            )
        }),
{
}

/// A chat about a survey closes its picker and tells its questions; asking for
/// free text opens an empty line. Neither answers anything.
pub proof fn law_a_chat_is_opened_with_the_questions(app: AppModel)
    requires
        app.survey is Some,
    ensures
        app.chat_begun().chats(),
        app.chat_begun().overlay is None,
        app.chat_begun().survey->0.answers == app.survey->0.answers,
        app.chat_begun().effects.last() == EffectModel::Persist(
            EntryModel::Info { at: app.stamp, text: survey::chat_text(app.survey->0.questions) },
        ),
        app.other_asked().takes_other(),
        app.other_asked().survey->0.other_input == Some(Seq::<char>::empty()),
        app.other_asked().survey->0.answers == app.survey->0.answers,
{
}

/// A failed attempt is repeated twice, a tenth of a second later each time;
/// then its failure is reported. An attempt that went well is reported so.
pub proof fn law_a_line_is_written_in_three_attempts(attempts: nat, error: String)
    ensures
        attempts < 3 ==> next_step(attempts, Some(error)) == (AppendStep::TryAgain {
            pause_ms: 100,
        }),
        attempts >= 3 ==> next_step(attempts, Some(error)) == AppendStep::Report(Some(error)),
        next_step(attempts, None) == AppendStep::Report(None),
{
}

/// A question that is asked is shown, and where none is left nothing is.
pub proof fn law_an_open_question_is_shown(app: AppModel)
    ensures
        app.survey is Some && app.survey->0.asks() ==> app.question_opened().overlay == Some(
            app.survey->0.question_overlay(),
        ),
        app.survey is None || !app.survey->0.asks() ==> app.question_opened() == app,
        app.question_opened().effects == app.effects,
        app.takes_other() <==> app.survey is Some && app.survey->0.other_input is Some,
        app.chats() <==> app.survey is Some && app.survey->0.chat_mode,
{
}

/// A survey that takes the place of another says so.
pub proof fn law_a_replaced_survey_is_told(app: AppModel, questions: Seq<QuestionModel>)
    requires
        questions.len() > 0,
        app.survey is Some,
        app.survey->0.questions != questions,
    ensures
        app.survey_begun(questions).feed == app.info(
            "a new clarification survey replaced the one in progress"@,
        ).feed,
{
}

/// While the operator is asked the title waits, and once nothing asks any more
/// it goes on.
pub proof fn law_the_title_waits_while_the_operator_is_asked(app: AppModel, reply: Seq<char>)
    requires
        app.survey is Some,
    ensures
        app.answers_written(None).titles == app.titles.waiting(false, app.now),
        app.chat_written(reply, None).titles == app.titles.waiting(false, app.now),
        app.survey_dismissed().titles == app.titles.waiting(false, app.now),
        app.survey_dropped(reply).titles == app.titles.waiting(false, app.now),
{
}

} // verus!
