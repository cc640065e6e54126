//! A clarification survey, answered one question at a time: listed options,
//! options to mark and confirm, free text, or one chat reply that stands for
//! every answer.

use vstd::prelude::*;
use crate::text;
use crate::text::{concat3, format_decimal, join_texts, same};
use crate::transcript::clone_opt;
use crate::tui::app::overlay;
use crate::tui::app::overlay::{ItemModel, Overlay, OverlayKind, OverlayModel, PickerItem};

verus! {

/// The row that asks for free text; no option can have this id.
pub const SURVEY_OTHER_ID: &'static str = "\u{0}other";

/// The row that turns the survey into a chat.
pub const SURVEY_CHAT_ID: &'static str = "\u{0}chat";

/// The row that records the marked options.
pub const SURVEY_CONFIRM_ID: &'static str = "\u{0}confirm";

/// An option of a question.
#[derive(Debug, PartialEq)]
pub struct HarnessSurveyOption {
    pub label: String,
    pub description: String,
}

/// A question.
#[derive(Debug, PartialEq)]
pub struct HarnessSurveyQuestion {
    pub header: String,
    pub question: String,
    pub options: Vec<HarnessSurveyOption>,
    /// Whether free text may stand for an option.
    pub allow_other: bool,
    /// Whether several options may be marked.
    pub multiple: bool,
}

/// The questions of a survey.
#[derive(Debug, PartialEq)]
pub struct QuestionSurvey {
    pub questions: Vec<HarnessSurveyQuestion>,
}

/// The answer to a question.
#[derive(Debug, PartialEq)]
pub struct HarnessSurveyAnswer {
    pub index: u64,
    pub choice: Option<String>,
    pub other: Option<String>,
}

impl Clone for HarnessSurveyAnswer {
    fn clone(&self) -> (r: Self)
        ensures
            r == *self,
    {
        HarnessSurveyAnswer {
            index: self.index,
            choice: clone_opt(&self.choice),
            other: clone_opt(&self.other),
        }
    }
}

/// What a question says.
#[verifier::ext_equal]
pub ghost struct QuestionModel {
    pub header: Seq<char>,
    pub question: Seq<char>,
    pub options: Seq<(Seq<char>, Seq<char>)>,
    pub allow_other: bool,
    pub multiple: bool,
}

/// What options say.
pub open spec fn option_models(v: Seq<HarnessSurveyOption>) -> Seq<(Seq<char>, Seq<char>)> {
    Seq::new(v.len(), |i: int| (v[i].label@, v[i].description@))
}

impl View for HarnessSurveyQuestion {
    type V = QuestionModel;

    open spec fn view(&self) -> QuestionModel {
        QuestionModel {
            header: self.header@,
            question: self.question@,
            options: option_models(self.options@),
            allow_other: self.allow_other,
            multiple: self.multiple,
        }
    }
}

/// What questions say.
pub open spec fn question_models(v: Seq<HarnessSurveyQuestion>) -> Seq<QuestionModel> {
    Seq::new(v.len(), |i: int| v[i]@)
}

/// What an answer says: the question's number, the choice, the free text.
pub open spec fn answer_model(a: HarnessSurveyAnswer) -> (
    int,
    Option<Seq<char>>,
    Option<Seq<char>>,
) {
    (a.index as int, text::opt_text(a.choice), text::opt_text(a.other))
}

/// What answers say.
pub open spec fn answer_models(v: Seq<HarnessSurveyAnswer>) -> Seq<
    (int, Option<Seq<char>>, Option<Seq<char>>),
> {
    Seq::new(v.len(), |i: int| answer_model(v[i]))
}

// ---------------------------------------------------------------------------
// Equal surveys
// ---------------------------------------------------------------------------

fn same_options(a: &Vec<HarnessSurveyOption>, b: &Vec<HarnessSurveyOption>) -> (r: bool)
    ensures
        r == (option_models(a@) == option_models(b@)),
{
    let ghost x = option_models(a@);
    let ghost y = option_models(b@);
    if a.len() != b.len() {
        assert(x.len() != y.len());
        return false;
    }
    let mut i: usize = 0;
    while i < a.len()
        invariant
            i <= a.len(),
            a@.len() == b@.len(),
            x == option_models(a@),
            y == option_models(b@),
            forall|k: int| 0 <= k < i ==> x[k] == y[k],
        decreases a.len() - i,
    {
        if !same(a[i].label.as_str(), b[i].label.as_str()) || !same(
            a[i].description.as_str(),
            b[i].description.as_str(),
        ) {
            assert(x[i as int] != y[i as int]);
            return false;
        }
        i = i + 1;
    }
    assert(x =~= y);
    true
}

fn same_question(a: &HarnessSurveyQuestion, b: &HarnessSurveyQuestion) -> (r: bool)
    ensures
        r == (a@ == b@),
{
    same(a.header.as_str(), b.header.as_str()) && same(a.question.as_str(), b.question.as_str())
        && same_options(&a.options, &b.options) && a.allow_other == b.allow_other && a.multiple
        == b.multiple
}

fn same_questions(a: &Vec<HarnessSurveyQuestion>, b: &Vec<HarnessSurveyQuestion>) -> (r: bool)
    ensures
        r == (question_models(a@) == question_models(b@)),
{
    let ghost x = question_models(a@);
    let ghost y = question_models(b@);
    if a.len() != b.len() {
        assert(x.len() != y.len());
        return false;
    }
    let mut i: usize = 0;
    while i < a.len()
        invariant
            i <= a.len(),
            a@.len() == b@.len(),
            x == question_models(a@),
            y == question_models(b@),
            forall|k: int| 0 <= k < i ==> x[k] == y[k],
        decreases a.len() - i,
    {
        if !same_question(&a[i], &b[i]) {
            assert(x[i as int] != y[i as int]);
            return false;
        }
        i = i + 1;
    }
    assert(x =~= y);
    true
}

// ---------------------------------------------------------------------------
// The state of a survey
// ---------------------------------------------------------------------------

/// A live survey. The asking run is blocked until the answers are written; the
/// state only collects them.
pub struct SurveyState {
    pub survey: QuestionSurvey,
    /// The question that shows.
    pub current: usize,
    pub answers: Vec<HarnessSurveyAnswer>,
    /// The free text, while it is typed.
    pub other_input: Option<String>,
    /// The marked options, ascending.
    pub multiple_picks: Vec<usize>,
    pub last_question: usize,
    /// Whether the next message answers the whole survey.
    pub chat_mode: bool,
    /// Where the answers go: the session that asked, whatever is open later.
    pub answers_path: String,
}

/// What a live survey holds.
#[verifier::ext_equal]
pub ghost struct SurveyModel {
    pub questions: Seq<QuestionModel>,
    pub current: int,
    pub answers: Seq<(int, Option<Seq<char>>, Option<Seq<char>>)>,
    pub other_input: Option<Seq<char>>,
    pub picks: Seq<int>,
    pub last_question: int,
    pub chat_mode: bool,
    pub answers_path: Seq<char>,
}

/// Positions as numbers.
pub open spec fn pick_models(v: Seq<usize>) -> Seq<int> {
    Seq::new(v.len(), |i: int| v[i] as int)
}

/// A position put in its place among ascending ones.
pub open spec fn with_pick(picks: Seq<int>, x: int) -> Seq<int>
    decreases picks.len(),
{
    if picks.len() == 0 {
        seq![x]
    } else if picks.last() <= x {
        picks.push(x)
    } else {
        with_pick(picks.drop_last(), x).push(picks.last())
    }
}

/// The positions other than `x`.
pub open spec fn without_pick(picks: Seq<int>, x: int) -> Seq<int>
    decreases picks.len(),
{
    if picks.len() == 0 {
        Seq::empty()
    } else if picks.last() == x {
        without_pick(picks.drop_last(), x)
    } else {
        without_pick(picks.drop_last(), x).push(picks.last())
    }
}

/// The labels of marked options.
pub open spec fn picked_labels(
    options: Seq<(Seq<char>, Seq<char>)>,
    picks: Seq<int>,
) -> Seq<Seq<char>>
    decreases picks.len(),
{
    if picks.len() == 0 {
        Seq::empty()
    } else {
        let before = picked_labels(options, picks.drop_last());
        if 0 <= picks.last() < options.len() {
            before.push(options[picks.last()].0)
        } else {
            before
        }
    }
}

/// The row of an option.
pub open spec fn option_item(option: (Seq<char>, Seq<char>)) -> ItemModel {
    ItemModel { detail: Some(option.1), id: option.0, label: option.0 }
}

/// The rows of a question: its options, then the confirm row, the free-text
/// row where it has them, and always the chat row.
pub open spec fn question_items(q: QuestionModel) -> Seq<ItemModel> {
    let listed = Seq::new(q.options.len(), |i: int| option_item(q.options[i]));
    let confirmed = if q.multiple {
        listed.push(
            ItemModel {
                detail: Some("enter records the options marked [x]"@),
                id: SURVEY_CONFIRM_ID@,
                label: "Confirm selection"@,
            },
        )
    } else {
        listed
    };
    let other = if q.allow_other {
        confirmed.push(
            ItemModel {
                detail: Some("answer with free text instead"@),
                id: SURVEY_OTHER_ID@,
                label: "Type something."@,
            },
        )
    } else {
        confirmed
    };
    other.push(ItemModel { detail: None, id: SURVEY_CHAT_ID@, label: "Chat about this"@ })
}

impl SurveyModel {
    /// A survey that was just asked.
    pub open spec fn begun(questions: Seq<QuestionModel>, answers_path: Seq<char>) -> SurveyModel {
        SurveyModel {
            questions,
            current: 0,
            answers: Seq::empty(),
            other_input: None,
            picks: Seq::empty(),
            last_question: 0,
            chat_mode: false,
            answers_path,
        }
    }

    /// Whether a question shows; behind the last one the answers are written.
    pub open spec fn asks(self) -> bool {
        0 <= self.current < self.questions.len()
    }

    /// No more questions were passed than answers were given.
    pub open spec fn wf(self) -> bool {
        0 <= self.current <= self.answers.len()
    }

    /// The picker of the current question.
    pub open spec fn question_overlay(self) -> OverlayModel {
        let q = self.questions[self.current];
        OverlayModel::opened(
            OverlayKind::Question,
            "clarification "@ + text::decimal((self.current + 1) as nat) + "/"@ + text::decimal(
                self.questions.len(),
            ) + " \u{b7} "@ + q.header + " \u{2014} "@ + q.question,
            question_items(q),
        )
    }

    /// The mark of an option flipped; other rows and other questions have no
    /// mark.
    pub open spec fn toggled(self, index: int) -> SurveyModel {
        if self.asks() && self.questions[self.current].multiple && 0 <= index
            < self.questions[self.current].options.len() {
            SurveyModel {
                picks: if self.picks.contains(index) {
                    without_pick(self.picks, index)
                } else {
                    with_pick(self.picks, index)
                },
                ..self
            }
        } else {
            self
        }
    }

    /// The labels of the marked options.
    pub open spec fn marked(self) -> Seq<Seq<char>> {
        picked_labels(self.questions[self.current].options, self.picks)
    }

    /// An answer to the current question, and the next question.
    pub open spec fn answered(
        self,
        choice: Option<Seq<char>>,
        other: Option<Seq<char>>,
    ) -> SurveyModel {
        SurveyModel {
            answers: self.answers.push((self.current, choice, other)),
            other_input: None,
            picks: Seq::empty(),
            last_question: self.current,
            current: self.current + 1,
            ..self
        }
    }

    /// The last answer taken back, after it could not be written.
    pub open spec fn retracted(self) -> SurveyModel {
        SurveyModel {
            answers: if self.answers.len() > 0 {
                self.answers.drop_last()
            } else {
                self.answers
            },
            current: if self.current > 0 {
                self.current - 1
            } else {
                0
            },
            ..self
        }
    }

    /// The survey waits for one message that answers everything.
    pub open spec fn chatting(self) -> SurveyModel {
        SurveyModel { chat_mode: true, last_question: self.current, ..self }
    }
}

impl View for SurveyState {
    type V = SurveyModel;

    open spec fn view(&self) -> SurveyModel {
        SurveyModel {
            questions: question_models(self.survey.questions@),
            current: self.current as int,
            answers: answer_models(self.answers@),
            other_input: text::opt_text(self.other_input),
            picks: pick_models(self.multiple_picks@),
            last_question: self.last_question as int,
            chat_mode: self.chat_mode,
            answers_path: self.answers_path@,
        }
    }
}

/// What a survey holds, where one is live.
pub open spec fn survey_model(s: Option<SurveyState>) -> Option<SurveyModel> {
    match s {
        Some(state) => Some(state@),
        None => None,
    }
}

/// The lines that show the options of a question for a chat reply.
pub open spec fn option_lines(options: Seq<(Seq<char>, Seq<char>)>) -> Seq<Seq<char>> {
    Seq::new(
        options.len(),
        |i: int|
            "   "@ + text::decimal((i + 1) as nat) + ". "@ + options[i].0 + " \u{2014} "@
                + options[i].1,
    )
}

/// The lines that show the first `n` questions for a chat reply.
pub open spec fn question_lines(questions: Seq<QuestionModel>, n: nat) -> Seq<Seq<char>>
    decreases n,
{
    if n == 0 || n > questions.len() {
        Seq::empty()
    } else {
        let q = questions[n - 1];
        question_lines(questions, (n - 1) as nat).push(
            text::decimal(n) + ". "@ + q.header + " \u{2014} "@ + q.question,
        ) + option_lines(q.options)
    }
}

/// What is said when the survey becomes a chat: every question with its
/// options, so that one message can answer them all.
pub open spec fn chat_text(questions: Seq<QuestionModel>) -> Seq<char> {
    text::joined(
        seq![
            "chat about the survey \u{2014} your next message answers all "@ + text::decimal(
                questions.len(),
            ) + " questions"@,
        ] + question_lines(questions, questions.len()) + seq![
            "esc dismisses the survey (answer it later with `drip --answer`)"@,
        ],
        "\n"@,
    )
}

impl SurveyState {
    /// Begins a survey.
    pub fn begin(survey: QuestionSurvey, answers_path: String) -> (r: Self)
        ensures
            r@ == SurveyModel::begun(question_models(survey.questions@), answers_path@),
            r@.wf(),
    {
        let r = SurveyState {
            survey,
            current: 0,
            answers: Vec::new(),
            other_input: None,
            multiple_picks: Vec::new(),
            last_question: 0,
            chat_mode: false,
            answers_path,
        };
        assert(r@ =~= SurveyModel::begun(question_models(survey.questions@), answers_path@));
        r
    }

    /// Whether this is the survey with those questions.
    pub fn is_survey(&self, survey: &QuestionSurvey) -> (r: bool)
        ensures
            r == (self@.questions == question_models(survey.questions@)),
    {
        same_questions(&self.survey.questions, &survey.questions)
    }

    /// Whether a question shows.
    pub fn asks(&self) -> (r: bool)
        ensures
            r == self@.asks(),
    {
        self.current < self.survey.questions.len()
    }

    /// Opens the picker of the current question.
    pub fn open_survey_question(&self) -> (r: Overlay)
        requires
            self@.asks(),
        ensures
            r@ == self@.question_overlay(),
    {
        let count: usize = self.survey.questions.len();
        let question = &self.survey.questions[self.current];
        let ghost q = question@;
        let ghost listed = Seq::new(q.options.len(), |i: int| option_item(q.options[i]));
        let mut items: Vec<PickerItem> = Vec::new();
        let mut i: usize = 0;
        assert(overlay::item_models(items@) =~= listed.take(0));
        while i < question.options.len()
            invariant
                i <= question.options.len(),
                q == question@,
                listed == Seq::new(q.options.len(), |i: int| option_item(q.options[i])),
                overlay::item_models(items@) == listed.take(i as int),
            decreases question.options.len() - i,
        {
            broadcast use overlay::lemma_items_push;

            let option = &question.options[i];
            items.push(
                PickerItem {
                    detail: Some(option.description.clone()),
                    id: option.label.clone(),
                    label: option.label.clone(),
                },
            );
            assert(listed.take(i + 1) =~= listed.take(i as int).push(listed[i as int]));
            i = i + 1;
        }
        assert(listed.take(i as int) =~= listed);
        broadcast use overlay::lemma_items_push;

        if question.multiple {
            items.push(
                PickerItem {
                    detail: Some("enter records the options marked [x]".to_string()),
                    id: SURVEY_CONFIRM_ID.to_string(),
                    label: "Confirm selection".to_string(),
                },
            );
        }
        if question.allow_other {
            items.push(
                PickerItem {
                    detail: Some("answer with free text instead".to_string()),
                    id: SURVEY_OTHER_ID.to_string(),
                    label: "Type something.".to_string(),
                },
            );
        }
        items.push(
            PickerItem {
                detail: None,
                id: SURVEY_CHAT_ID.to_string(),
                label: "Chat about this".to_string(),
            },
        );
        let number = format_decimal(self.current as u64 + 1);
        let total = format_decimal(count as u64);
        let mut title = concat3("clarification ", number.as_str(), "/");
        title.append(total.as_str());
        title.append(" \u{b7} ");
        title.append(question.header.as_str());
        title.append(" \u{2014} ");
        title.append(question.question.as_str());
        Overlay::open(OverlayKind::Question, title, items)
    }

    fn has_pick(&self, index: usize) -> (r: bool)
        ensures
            r == self@.picks.contains(index as int),
    {
        let ghost picks = self@.picks;
        let mut i: usize = 0;
        while i < self.multiple_picks.len()
            invariant
                i <= self.multiple_picks.len(),
                picks == pick_models(self.multiple_picks@),
                forall|k: int| 0 <= k < i ==> picks[k] != index,
            decreases self.multiple_picks.len() - i,
        {
            if self.multiple_picks[i] == index {
                assert(picks[i as int] == index);
                return true;
            }
            i = i + 1;
        }
        false
    }

    fn drop_pick(&mut self, index: usize)
        ensures
            final(self)@ == (SurveyModel {
                picks: without_pick(old(self)@.picks, index as int),
                ..old(self)@
            }),
    {
        let ghost picks = self@.picks;
        let mut kept: Vec<usize> = Vec::new();
        let mut i: usize = 0;
        assert(pick_models(kept@) =~= without_pick(picks.take(0), index as int));
        while i < self.multiple_picks.len()
            invariant
                i <= self.multiple_picks.len(),
                *self == *old(self),
                picks == pick_models(self.multiple_picks@),
                pick_models(kept@) == without_pick(picks.take(i as int), index as int),
            decreases self.multiple_picks.len() - i,
        {
            assert(picks.take(i + 1).drop_last() =~= picks.take(i as int));
            assert(picks.take(i + 1).last() == picks[i as int]);
            let p: usize = self.multiple_picks[i];
            let ghost before = pick_models(kept@);
            if p != index {
                kept.push(p);
                assert(pick_models(kept@) =~= before.push(p as int));
            }
            i = i + 1;
        }
        assert(picks.take(i as int) =~= picks);
        self.multiple_picks = kept;
    }

    fn insert_pick(&mut self, index: usize)
        ensures
            final(self)@ == (SurveyModel {
                picks: with_pick(old(self)@.picks, index as int),
                ..old(self)@
            }),
    {
        let ghost picks = self@.picks;
        let mut n: usize = self.multiple_picks.len();
        assert(picks.take(n as int) =~= picks);
        assert(picks.skip(n as int) =~= Seq::empty());
        assert(with_pick(picks, index as int) + picks.skip(n as int) =~= with_pick(
            picks,
            index as int,
        ));
        while n > 0 && self.multiple_picks[n - 1] > index
            invariant
                n <= self.multiple_picks.len(),
                *self == *old(self),
                picks == pick_models(self.multiple_picks@),
                with_pick(picks, index as int) == with_pick(picks.take(n as int), index as int)
                    + picks.skip(n as int),
            decreases n,
        {
            let ghost head = picks.take(n as int);
            assert(head.last() == picks[n - 1]);
            assert(head.drop_last() =~= picks.take(n - 1));
            assert(with_pick(head, index as int) =~= with_pick(picks.take(n - 1), index as int).push(
                picks[n - 1],
            ));
            assert(with_pick(picks.take(n - 1), index as int).push(picks[n - 1]) + picks.skip(
                n as int,
            ) =~= with_pick(picks.take(n - 1), index as int) + picks.skip(n - 1));
            n = n - 1;
        }
        proof {
            let head = picks.take(n as int);
            if n > 0 {
                assert(head.last() == picks[n - 1]);
            }
            assert(with_pick(head, index as int) =~= head.push(index as int));
        }
        self.multiple_picks.insert(n, index);
        assert(pick_models(self.multiple_picks@) =~= picks.take(n as int).push(index as int)
            + picks.skip(n as int));
    }

    /// Flips the mark of an option.
    pub fn toggle_multi_pick(&mut self, index: usize)
        ensures
            final(self)@ == old(self)@.toggled(index as int),
    {
        if self.current >= self.survey.questions.len() {
            return ;
        }
        let question = &self.survey.questions[self.current];
        if !question.multiple || index >= question.options.len() {
            return ;
        }
        if self.has_pick(index) {
            self.drop_pick(index);
        } else {
            self.insert_pick(index);
        }
    }

    /// The labels of the marked options, in the order of the options.
    pub fn marked_labels(&self) -> (r: Vec<String>)
        requires
            self@.asks(),
        ensures
            text::texts(r@) == self@.marked(),
    {
        let question = &self.survey.questions[self.current];
        let ghost options = option_models(question.options@);
        let ghost picks = self@.picks;
        let mut out: Vec<String> = Vec::new();
        let mut i: usize = 0;
        assert(text::texts(out@) =~= picked_labels(options, picks.take(0)));
        while i < self.multiple_picks.len()
            invariant
                i <= self.multiple_picks.len(),
                picks == pick_models(self.multiple_picks@),
                options == option_models(question.options@),
                text::texts(out@) == picked_labels(options, picks.take(i as int)),
            decreases self.multiple_picks.len() - i,
        {
            broadcast use text::lemma_texts_push;

            assert(picks.take(i + 1).drop_last() =~= picks.take(i as int));
            assert(picks.take(i + 1).last() == picks[i as int]);
            let p: usize = self.multiple_picks[i];
            if p < question.options.len() {
                out.push(question.options[p].label.clone());
            }
            i = i + 1;
        }
        assert(picks.take(i as int) =~= picks);
        out
    }

    /// Takes an answer to the current question and goes on to the next. Returns
    /// whether none is left to ask.
    pub fn record_survey_answer(&mut self, choice: Option<String>, other: Option<String>) -> (r:
        bool)
        requires
            old(self)@.wf(),
        ensures
            final(self)@ == old(self)@.answered(text::opt_text(choice), text::opt_text(other)),
            r == !final(self)@.asks(),
            final(self)@.wf(),
    {
        let count: usize = self.survey.questions.len();
        self.answers.push(HarnessSurveyAnswer { index: self.current as u64, choice, other });
        assert(answer_models(self.answers@) =~= old(self)@.answers.push(
            answer_model(self.answers@.last()),
        ));
        self.other_input = None;
        self.multiple_picks = Vec::new();
        assert(self@.picks =~= Seq::empty());
        self.last_question = self.current;
        let given: usize = self.answers.len();
        assert(self.current < given);
        self.current = self.current + 1;
        self.current >= count
    }

    /// Takes the last answer back, so that the last question is asked again.
    pub fn retract(&mut self)
        requires
            old(self)@.wf(),
        ensures
            final(self)@ == old(self)@.retracted(),
            final(self)@.wf(),
    {
        let _ = self.answers.pop();
        assert(answer_models(self.answers@) =~= old(self)@.retracted().answers);
        if self.current > 0 {
            self.current = self.current - 1;
        }
    }

    /// Turns the survey into a chat, and says what the operator is told.
    pub fn begin_survey_chat(&mut self) -> (r: String)
        ensures
            final(self)@ == old(self)@.chatting(),
            r@ == chat_text(old(self)@.questions),
    {
        self.chat_mode = true;
        self.last_question = self.current;
        let ghost all = self@.questions;
        let total = format_decimal(self.survey.questions.len() as u64);
        let head = concat3(
            "chat about the survey \u{2014} your next message answers all ",
            total.as_str(),
            " questions",
        );
        let ghost first = seq![head@];
        let mut lines: Vec<String> = Vec::new();
        lines.push(head);
        assert(text::texts(lines@) =~= first + question_lines(all, 0));
        let mut i: usize = 0;
        while i < self.survey.questions.len()
            invariant
                i <= self.survey.questions.len(),
                self.survey == old(self).survey,
                all == question_models(self.survey.questions@),
                text::texts(lines@) == first + question_lines(all, i as nat),
            decreases self.survey.questions.len() - i,
        {
            let question = &self.survey.questions[i];
            let number = format_decimal(i as u64 + 1);
            let mut line = concat3(number.as_str(), ". ", question.header.as_str());
            line.append(" \u{2014} ");
            line.append(question.question.as_str());
            let ghost before = text::texts(lines@);
            let ghost shown = line@;
            lines.push(line);
            let mut options = show_options(&question.options);
            let ghost opts = text::texts(options@);
            assert(text::texts(lines@) =~= before.push(shown));
            proof {
                text::lemma_texts_add(lines@, options@);
            }
            lines.append(&mut options);
            assert(first + (question_lines(all, i as nat).push(shown) + opts) =~= (first
                + question_lines(all, i as nat)).push(shown) + opts);
            assert(question_lines(all, (i + 1) as nat) == question_lines(all, i as nat).push(shown)
                + opts);
            i = i + 1;
        }
        let ghost before = text::texts(lines@);
        lines.push("esc dismisses the survey (answer it later with `drip --answer`)".to_string());
        assert(text::texts(lines@) =~= before + seq![
            "esc dismisses the survey (answer it later with `drip --answer`)"@,
        ]);
        join_texts(&lines, "\n")
    }
}

fn show_options(options: &Vec<HarnessSurveyOption>) -> (r: Vec<String>)
    ensures
        text::texts(r@) == option_lines(option_models(options@)),
{
    let ghost all = option_lines(option_models(options@));
    let mut out: Vec<String> = Vec::new();
    let mut i: usize = 0;
    assert(text::texts(out@) =~= all.take(0));
    while i < options.len()
        invariant
            i <= options.len(),
            all == option_lines(option_models(options@)),
            text::texts(out@) == all.take(i as int),
        decreases options.len() - i,
    {
        broadcast use text::lemma_texts_push;

        let number = format_decimal(i as u64 + 1);
        let mut line = concat3("   ", number.as_str(), ". ");
        line.append(options[i].label.as_str());
        line.append(" \u{2014} ");
        line.append(options[i].description.as_str());
        out.push(line);
        assert(all.take(i + 1) =~= all.take(i as int).push(all[i as int]));
        i = i + 1;
    }
    assert(all.take(i as int) =~= all);
    out
}

// ---------------------------------------------------------------------------
// Laws
// ---------------------------------------------------------------------------

/// Whether positions ascend, each once.
pub open spec fn ascending(picks: Seq<int>) -> bool {
    forall|i: int, j: int| 0 <= i < j < picks.len() ==> picks[i] < picks[j]
}

proof fn lemma_with_pick(picks: Seq<int>, x: int)
    requires
        ascending(picks),
        !picks.contains(x),
    ensures
        ascending(with_pick(picks, x)),
        forall|y: int|
            #[trigger] with_pick(picks, x).contains(y) <==> picks.contains(y) || y == x,
        without_pick(with_pick(picks, x), x) == picks,
    decreases picks.len(),
{
    let r = with_pick(picks, x);
    if picks.len() == 0 {
        assert(r[0] == x);
        assert(r.drop_last() =~= Seq::empty());
        reveal_with_fuel(without_pick, 2);
        assert(without_pick(r, x) =~= picks);
    } else if picks.last() <= x {
        assert(picks[picks.len() - 1] == picks.last());
        assert(picks.last() != x);
        lemma_without_absent(picks, x);
        assert(r.drop_last() =~= picks);
        assert forall|y: int| r.contains(y) implies picks.contains(y) || y == x by {
            let i = choose|i: int| 0 <= i < r.len() && r[i] == y;
            if i < picks.len() {
                assert(picks[i] == y);
            }
        }
        assert forall|y: int| picks.contains(y) || y == x implies r.contains(y) by {
            if y == x {
                assert(r[r.len() - 1] == x);
            } else {
                let i = choose|i: int| 0 <= i < picks.len() && picks[i] == y;
                assert(r[i] == y);
            }
        }
    } else {
        let head = picks.drop_last();
        let top = picks.last();
        assert forall|i: int, j: int| 0 <= i < j < head.len() implies head[i] < head[j] by {
            assert(picks[i] < picks[j]);
        }
        if head.contains(x) {
            let i = choose|i: int| 0 <= i < head.len() && head[i] == x;
            assert(picks[i] == x);
        }
        lemma_with_pick(head, x);
        let inner = with_pick(head, x);
        assert(r == inner.push(top));
        assert forall|i: int, j: int| 0 <= i < j < r.len() implies r[i] < r[j] by {
            if j == r.len() - 1 {
                assert(inner.contains(inner[i]));
                if inner[i] != x {
                    let k = choose|k: int| 0 <= k < head.len() && head[k] == inner[i];
                    assert(picks[k] < picks[picks.len() - 1]);
                }
            } else {
                assert(inner[i] < inner[j]);
            }
        }
        assert forall|y: int| r.contains(y) implies picks.contains(y) || y == x by {
            let i = choose|i: int| 0 <= i < r.len() && r[i] == y;
            if i < inner.len() {
                assert(inner.contains(inner[i]));
                if y != x {
                    let k = choose|k: int| 0 <= k < head.len() && head[k] == y;
                    assert(picks[k] == y);
                }
            } else {
                assert(picks[picks.len() - 1] == y);
            }
        }
        assert forall|y: int| picks.contains(y) || y == x implies r.contains(y) by {
            if picks.contains(y) && y == top {
                assert(r[r.len() - 1] == y);
            } else {
                if y != x {
                    let i = choose|i: int| 0 <= i < picks.len() && picks[i] == y;
                    assert(head[i] == y);
                }
                assert(inner.contains(y));
                let k = choose|k: int| 0 <= k < inner.len() && inner[k] == y;
                assert(r[k] == y);
            }
        }
        assert(r.drop_last() =~= inner);
        assert(picks =~= head.push(top));
    }
}

proof fn lemma_without_absent(picks: Seq<int>, x: int)
    requires
        !picks.contains(x),
    ensures
        without_pick(picks, x) == picks,
    decreases picks.len(),
{
    if picks.len() > 0 {
        assert(picks[picks.len() - 1] == picks.last());
        if picks.drop_last().contains(x) {
            let i = choose|i: int|
                0 <= i < picks.drop_last().len() && picks.drop_last()[i] == x;
            assert(picks[i] == x);
        }
        lemma_without_absent(picks.drop_last(), x);
        assert(picks =~= picks.drop_last().push(picks.last()));
    }
}

proof fn lemma_without_pick(picks: Seq<int>, x: int)
    requires
        ascending(picks),
    ensures
        ascending(without_pick(picks, x)),
        forall|y: int|
            #[trigger] without_pick(picks, x).contains(y) <==> picks.contains(y) && y != x,
    decreases picks.len(),
{
    let r = without_pick(picks, x);
    if picks.len() > 0 {
        let head = picks.drop_last();
        let top = picks.last();
        assert forall|i: int, j: int| 0 <= i < j < head.len() implies head[i] < head[j] by {
            assert(picks[i] < picks[j]);
        }
        lemma_without_pick(head, x);
        let inner = without_pick(head, x);
        if top != x {
            assert forall|i: int, j: int| 0 <= i < j < r.len() implies r[i] < r[j] by {
                if j == r.len() - 1 {
                    assert(inner.contains(inner[i]));
                    let k = choose|k: int| 0 <= k < head.len() && head[k] == inner[i];
                    assert(picks[k] < picks[picks.len() - 1]);
                } else {
                    assert(inner[i] < inner[j]);
                }
            }
        }
        assert forall|y: int| r.contains(y) implies picks.contains(y) && y != x by {
            let i = choose|i: int| 0 <= i < r.len() && r[i] == y;
            if i < inner.len() {
                assert(inner.contains(inner[i]));
                let k = choose|k: int| 0 <= k < head.len() && head[k] == y;
                assert(picks[k] == y);
            } else {
                assert(picks[picks.len() - 1] == y);
            }
        }
        assert forall|y: int| picks.contains(y) && y != x implies r.contains(y) by {
            let i = choose|i: int| 0 <= i < picks.len() && picks[i] == y;
            if i < head.len() {
                assert(head[i] == y);
                assert(inner.contains(y));
                let k = choose|k: int| 0 <= k < inner.len() && inner[k] == y;
                assert(r[k] == y);
            } else {
                assert(r[r.len() - 1] == y);
            }
        }
    }
}

/// Marks stay ascending, and one flip changes exactly the mark of that option.
pub proof fn law_a_flip_changes_one_mark(s: SurveyModel, index: int, other: int)
    requires
        ascending(s.picks),
        s.asks(),
        s.questions[s.current].multiple,
        0 <= index < s.questions[s.current].options.len(),
    ensures
        ascending(s.toggled(index).picks),
        s.toggled(index).picks.contains(index) == !s.picks.contains(index),
        other != index ==> s.toggled(index).picks.contains(other) == s.picks.contains(other),
{
    if s.picks.contains(index) {
        lemma_without_pick(s.picks, index);
    } else {
        lemma_with_pick(s.picks, index);
    }
}

/// Marking an option and unmarking it again leaves the marks as they were.
pub proof fn law_flipping_twice_changes_nothing(s: SurveyModel, index: int)
    requires
        ascending(s.picks),
        !s.picks.contains(index),
    ensures
        s.toggled(index).toggled(index) == s,
{
    lemma_with_pick(s.picks, index);
    assert(s.toggled(index).toggled(index) =~= s);
}

/// A question always offers the chat row, and offers it last.
pub proof fn law_every_question_offers_the_chat(q: QuestionModel)
    ensures
        question_items(q).len() > q.options.len(),
        question_items(q).last().id == SURVEY_CHAT_ID@,
{
}

/// An answer that could not be written is taken back whole: the same question
/// is asked again, with the answers before it.
pub proof fn law_retracting_undoes_an_answer(
    s: SurveyModel,
    choice: Option<Seq<char>>,
    other: Option<Seq<char>>,
)
    requires
        s.wf(),
    ensures
        s.answered(choice, other).retracted().current == s.current,
        s.answered(choice, other).retracted().answers == s.answers,
        s.answered(choice, other).retracted().asks() == s.asks(),
{
    assert(s.answered(choice, other).retracted().answers =~= s.answers);
}

/// An answer is kept behind those before it, under the number of its question
/// and as it was given, and the next question is asked with nothing marked and
/// nothing typed.
pub proof fn law_an_answer_is_kept_as_it_was_given(
    s: SurveyModel,
    choice: Option<Seq<char>>,
    other: Option<Seq<char>>,
)
    ensures
        ({
            let next = s.answered(choice, other);
            &&& next.answers == s.answers.push((s.current, choice, other))
            &&& next.current == s.current + 1
            &&& next.picks.len() == 0
            &&& next.other_input is None
            &&& next.questions == s.questions
            &&& next.chat_mode == s.chat_mode
            &&& next.last_question == s.current
        }),
{
}

/// A fresh survey begins with its first question and has no answers.
pub proof fn law_a_survey_begins_at_its_first_question(questions: Seq<QuestionModel>, path: Seq<char>)
    ensures
        ({
            let s = SurveyModel::begun(questions, path);
            &&& s.questions == questions
            &&& s.current == 0
            &&& s.answers.len() == 0
            &&& s.picks.len() == 0
            &&& s.other_input is None
            &&& !s.chat_mode
            &&& s.answers_path == path
            &&& s.asks() <==> questions.len() > 0
        }),
{
}

/// The rows of a question: each option in order, which stands for itself and
/// shows what it means; behind them the row that confirms the marks, for a
/// question that takes several; the row for free text, where it is allowed; and
/// the row for a chat. No two of the special rows share an id.
pub proof fn law_every_option_has_its_row(q: QuestionModel, i: int)
    requires
        0 <= i < q.options.len(),
    ensures
        ({
            let rows = question_items(q);
            let n = q.options.len() as int;
            let m: int = if q.multiple {
                1
            } else {
                0
            };
            let o: int = if q.allow_other {
                1
            } else {
                0
            };
            &&& rows.len() == n + m + o + 1
            &&& rows[i].id == q.options[i].0
            &&& rows[i].label == q.options[i].0
            &&& rows[i].detail == Some(q.options[i].1)
            &&& q.multiple ==> rows[n].id == "\u{0}confirm"@ && rows[n].label
                == "Confirm selection"@
            &&& q.allow_other ==> rows[n + m].id == "\u{0}other"@ && rows[n + m].label
                == "Type something."@
            &&& rows[n + m + o].id == "\u{0}chat"@ && rows[n + m + o].label == "Chat about this"@
        }),
        "\u{0}confirm"@ != "\u{0}other"@,
        "\u{0}confirm"@ != "\u{0}chat"@,
        "\u{0}other"@ != "\u{0}chat"@,
{
    reveal_strlit("\u{0}confirm");
    reveal_strlit("\u{0}other");
    reveal_strlit("\u{0}chat");
    assert("\u{0}confirm"@.len() == 8 && "\u{0}other"@.len() == 6 && "\u{0}chat"@.len() == 5);
}

/// A question is shown with its number, how many there are, and what it asks.
pub proof fn law_a_question_is_shown_with_its_number(s: SurveyModel)
    requires
        s.asks(),
    ensures
        ({
            let q = s.questions[s.current];
            let o = s.question_overlay();
            &&& o.kind == OverlayKind::Question
            &&& o.selected == 0
            &&& o.items == question_items(q)
            &&& o.title == "clarification "@ + text::decimal((s.current + 1) as nat) + "/"@
                + text::decimal(s.questions.len()) + " · "@ + q.header + " — "@ + q.question
        }),
{
}

/// The marked options are answered by their labels, in the order of the marks;
/// a mark on no option says nothing.
pub proof fn law_marks_are_answered_by_their_labels(
    options: Seq<(Seq<char>, Seq<char>)>,
    picks: Seq<int>,
    x: int,
)
    ensures
        picked_labels(options, Seq::empty()) == Seq::<Seq<char>>::empty(),
        0 <= x < options.len() ==> picked_labels(options, picks.push(x)) == picked_labels(
            options,
            picks,
        ).push(options[x].0),
        !(0 <= x < options.len()) ==> picked_labels(options, picks.push(x)) == picked_labels(
            options,
            picks,
        ),
{
    assert(picks.push(x).drop_last() =~= picks);
}

/// Only a question that takes several answers has marks, and only its options
/// do.
pub proof fn law_only_options_of_such_questions_are_marked(s: SurveyModel, index: int)
    requires
        !s.asks() || !s.questions[s.current].multiple || index < 0 || index
            >= s.questions[s.current].options.len(),
    ensures
        s.toggled(index) == s,
{
}

/// A chat tells every question in order, with its number, and below it every
/// option with its own.
pub proof fn law_a_chat_tells_every_question(questions: Seq<QuestionModel>, n: nat, i: int)
    requires
        0 < n <= questions.len(),
        0 <= i < questions[n - 1].options.len(),
    ensures
        ({
            let q = questions[n - 1];
            let before = question_lines(questions, (n - 1) as nat);
            let lines = question_lines(questions, n);
            &&& lines.len() == before.len() + 1 + q.options.len()
            &&& before.is_prefix_of(lines)
            &&& lines[before.len() as int] == text::decimal(n) + ". "@ + q.header + " — "@
                + q.question
            &&& lines[before.len() + 1 + i] == "   "@ + text::decimal((i + 1) as nat) + ". "@
                + q.options[i].0 + " — "@ + q.options[i].1
        }),
        question_lines(questions, 0).len() == 0,
{
    let before = question_lines(questions, (n - 1) as nat);
    let lines = question_lines(questions, n);
    assert(before =~= lines.take(before.len() as int));
}

/// A survey that becomes a chat keeps its questions and its answers.
pub proof fn law_a_chat_keeps_the_survey(s: SurveyModel)
    ensures
        s.chatting().chat_mode,
        s.chatting().questions == s.questions,
        s.chatting().answers == s.answers,
        s.chatting().current == s.current,
        s.chatting().last_question == s.current,
{
}

/// What is seen of a survey is what it holds, field by field.
pub proof fn law_a_survey_is_seen_as_it_is(it: SurveyState)
    ensures
        it@.questions == question_models(it.survey.questions@),
        it@.current == it.current as int,
        it@.answers == answer_models(it.answers@),
        it@.other_input == text::opt_text(it.other_input),
        it@.picks == pick_models(it.multiple_picks@),
        it@.last_question == it.last_question as int,
        it@.chat_mode == it.chat_mode,
        it@.answers_path == it.answers_path@,
{
}

/// What is seen of a question is what it holds, field by field.
pub proof fn law_a_question_is_seen_as_it_is(it: HarnessSurveyQuestion)
    ensures
        it@.header == it.header@,
        it@.question == it.question@,
        it@.options == option_models(it.options@),
        it@.allow_other == it.allow_other,
        it@.multiple == it.multiple,
{
}

} // verus!
