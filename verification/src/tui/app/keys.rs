//! Keys: who takes each of them, and what it does.

use vstd::prelude::*;
use crate::text;
use crate::text::{all_digits, blank, concat2, concat3, format_decimal, parse_number, same, trim};
use crate::tui::app::effects::{Effect, EffectModel};
use crate::tui::app::input::{Key, KeyModel};
use crate::tui::app::overlay::{ItemModel, OverlayKind, OverlayModel, PickerItem};
use crate::tui::app::replies;
use crate::tui::app::replies::tool_choice_text;
use crate::tui::app::skill_picker::without_last;
use crate::tui::app::state::{AppModel, TuiApp};
use crate::tui::app::survey::{
    SurveyModel, SURVEY_CHAT_ID, SURVEY_CONFIRM_ID, SURVEY_OTHER_ID,
};

verus! {

// ---------------------------------------------------------------------------
// Picking
// ---------------------------------------------------------------------------

impl AppModel {
    /// A row of a picker is chosen.
    pub open spec fn item_picked(self, kind: OverlayKind, item: ItemModel) -> AppModel {
        match kind {
            OverlayKind::Question => if item.id == SURVEY_CONFIRM_ID@ {
                self.picks_confirmed()
            } else if item.id == SURVEY_OTHER_ID@ {
                self.other_asked()
            } else if item.id == SURVEY_CHAT_ID@ {
                self.chat_begun()
            } else {
                self.survey_answered(Some(item.id), None)
            },
            OverlayKind::Model => self.with(EffectModel::SelectProfile(item.id)),
            OverlayKind::ToolModel => self.with(EffectModel::SelectToolProfile(item.id)),
            OverlayKind::Prompt => self.with(EffectModel::SelectPrompt(item.id)),
            OverlayKind::Skills => self.row_toggled(item.id),
            OverlayKind::Jobs => match text::number(item.id) {
                Some(i) => self.with(EffectModel::OpenJobDetail(i)),
                None => self,
            },
            OverlayKind::Sessions => self.with(EffectModel::OpenSession(item.id)),
        }
    }

    /// What became of saving a choice.
    pub open spec fn choice_kept(
        self,
        kind: OverlayKind,
        id: Seq<char>,
        failure: Option<Seq<char>>,
    ) -> AppModel {
        match failure {
            Some(error) => self.error(error),
            None => match kind {
                OverlayKind::Model => self.info("model profile set to "@ + id),
                OverlayKind::ToolModel => self.info(replies::tool_choice_said(id)),
                OverlayKind::Prompt => self.info("system prompt set to "@ + id),
                _ => self,
            },
        }
    }
}

impl TuiApp {
    /// A row of a picker is chosen.
    pub fn on_pick(&mut self, kind: OverlayKind, item: PickerItem)
        requires
            old(self)@.wf(),
        ensures
            final(self)@ == old(self)@.item_picked(kind, item@),
            final(self)@.wf(),
    {
        match kind {
            OverlayKind::Question => {
                if same(item.id.as_str(), SURVEY_CONFIRM_ID) {
                    self.confirm_multi_picks();
                } else if same(item.id.as_str(), SURVEY_OTHER_ID) {
                    self.ask_other();
                } else if same(item.id.as_str(), SURVEY_CHAT_ID) {
                    self.begin_survey_chat();
                } else {
                    self.record_survey_answer(Some(item.id), None);
                }
            },
            OverlayKind::Model => {
                self.emit(Effect::SelectProfile(item.id));
            },
            OverlayKind::ToolModel => {
                self.emit(Effect::SelectToolProfile(item.id));
            },
            OverlayKind::Prompt => {
                self.emit(Effect::SelectPrompt(item.id));
            },
            OverlayKind::Skills => {
                self.skills_toggle(item.id.as_str());
            },
            OverlayKind::Jobs => {
                match parse_number(item.id.as_str()) {
                    Some(i) => {
                        self.emit(Effect::OpenJobDetail(i));
                    },
                    None => {},
                }
            },
            OverlayKind::Sessions => {
                self.emit(Effect::OpenSession(item.id));
            },
        }
    }

    /// Takes in what became of saving a choice.
    pub fn save_config(&mut self, kind: OverlayKind, id: &str, failure: Option<String>)
        requires
            old(self)@.wf(),
        ensures
            final(self)@ == old(self)@.choice_kept(kind, id@, text::opt_text(failure)),
            final(self)@.wf(),
    {
        match failure {
            Some(error) => {
                self.push_error(error.as_str());
            },
            None => {
                match kind {
                    OverlayKind::Model => {
                        let said = concat2("model profile set to ", id);
                        self.push_info(said.as_str());
                    },
                    OverlayKind::ToolModel => {
                        let said = tool_choice_text(id);
                        self.push_info(said.as_str());
                    },
                    OverlayKind::Prompt => {
                        let said = concat2("system prompt set to ", id);
                        self.push_info(said.as_str());
                    },
                    _ => {},
                }
            },
        }
    }
}

// ---------------------------------------------------------------------------
// Free text
// ---------------------------------------------------------------------------

impl AppModel {
    /// The free text as it is typed.
    pub open spec fn other_typed(self, input: Option<Seq<char>>) -> AppModel {
        match self.survey {
            Some(s) => AppModel {
                survey: Some(SurveyModel { other_input: input, ..s }),
                ..self
            },
            None => self,
        }
    }

    /// A key while free text is typed for the survey; `input` is what stands
    /// there.
    pub open spec fn other_key(self, input: Seq<char>, key: KeyModel) -> AppModel {
        match key {
            KeyModel::Return => if text::is_blank(input) {
                self.info("type a free-text answer, or esc to go back to the choices"@)
            } else {
                self.survey_answered(None, Some(text::trimmed(input)))
            },
            KeyModel::Escape => self.other_typed(None).question_opened(),
            KeyModel::Backspace => self.other_typed(
                Some(
                    if input.len() == 0 {
                        input
                    } else {
                        input.drop_last()
                    },
                ),
            ),
            KeyModel::Text(s) => self.other_typed(Some(input + s)),
            KeyModel::Paste(s) => self.other_typed(Some(input + s)),
            KeyModel::Ctrl(c) => if c == 'c' {
                self.ended()
            } else {
                self
            },
            _ => self,
        }
    }
}

impl TuiApp {
    fn type_other(&mut self, input: Option<String>)
        requires
            old(self)@.wf(),
        ensures
            final(self)@ == old(self)@.other_typed(text::opt_text(input)),
            final(self)@.wf(),
    {
        match &mut self.survey {
            Some(s) => {
                s.other_input = input;
            },
            None => {},
        }
        assert(self@ =~= old(self)@.other_typed(text::opt_text(input)));
    }

    fn on_other_key(&mut self, input: String, key: &Key)
        requires
            old(self)@.wf(),
        ensures
            final(self)@ == old(self)@.other_key(input@, key@),
            final(self)@.wf(),
    {
        match key {
            Key::Return => {
                if blank(input.as_str()) {
                    self.push_info("type a free-text answer, or esc to go back to the choices");
                } else {
                    let answer = trim(input.as_str());
                    self.record_survey_answer(None, Some(answer));
                }
            },
            Key::Escape => {
                self.type_other(None);
                self.open_survey_question();
            },
            Key::Backspace => {
                self.type_other(Some(without_last(input.as_str())));
            },
            Key::Text(s) => {
                let mut longer = input;
                longer.append(s.as_str());
                self.type_other(Some(longer));
            },
            Key::Paste(s) => {
                let mut longer = input;
                longer.append(s.as_str());
                self.type_other(Some(longer));
            },
            Key::Ctrl(c) => {
                if *c == 'c' {
                    self.quit = true;
                }
            },
            _ => {},
        }
    }
}

// ---------------------------------------------------------------------------
// Pickers
// ---------------------------------------------------------------------------

impl AppModel {
    /// The picker closes on a row of it.
    pub open spec fn row_taken(self, o: OverlayModel) -> AppModel {
        let closed = AppModel { overlay: None, ..self };
        match o.picked() {
            Some(item) => closed.item_picked(o.kind, item),
            None => closed,
        }
    }

    /// A number typed in the picker `o`: that row is highlighted, and of a
    /// question it is the answer.
    pub open spec fn row_jumped(self, o: OverlayModel, s: Seq<char>) -> AppModel {
        match text::number(s) {
            Some(n) => if 1 <= n <= o.items.len() {
                let there = OverlayModel { selected: n - 1, ..o };
                if o.kind == OverlayKind::Question {
                    self.row_taken(there)
                } else {
                    AppModel { overlay: Some(there), ..self }
                }
            } else {
                self
            },
            None => self,
        }
    }

    /// A key in the picker `o`.
    pub open spec fn overlay_key(self, o: OverlayModel, key: KeyModel) -> AppModel {
        match key {
            KeyModel::Escape => {
                let closed = AppModel { overlay: None, ..self };
                if o.kind == OverlayKind::Question {
                    closed.survey_dismissed()
                } else {
                    closed
                }
            },
            KeyModel::Return => self.row_taken(o),
            KeyModel::Text(s) => if o.kind == OverlayKind::Question && s == " "@ {
                self.pick_toggled(o.selected)
            } else if text::is_digits(s) {
                self.row_jumped(o, s)
            } else {
                self
            },
            KeyModel::Up => AppModel { overlay: Some(o.moved_up()), ..self },
            KeyModel::Down | KeyModel::Tab => AppModel { overlay: Some(o.moved_down()), ..self },
            KeyModel::Ctrl(c) => if c == 'c' {
                self.ended()
            } else {
                self
            },
            _ => self,
        }
    }
}

impl TuiApp {
    fn take_row(&mut self)
        requires
            old(self)@.wf(),
            old(self)@.overlay is Some,
        ensures
            final(self)@ == old(self)@.row_taken(old(self)@.overlay->0),
            final(self)@.wf(),
    {
        let mut kind = OverlayKind::Question;
        let mut picked: Option<PickerItem> = None;
        match &self.overlay {
            Some(o) => {
                kind = o.kind;
                picked = o.picked();
            },
            None => {},
        }
        self.overlay = None;
        match picked {
            Some(item) => {
                self.on_pick(kind, item);
            },
            None => {},
        }
    }

    fn jump_to_row(&mut self, s: &str)
        requires
            old(self)@.wf(),
            old(self)@.overlay is Some,
        ensures
            final(self)@ == old(self)@.row_jumped(old(self)@.overlay->0, s@),
            final(self)@.wf(),
    {
        let n: usize = match parse_number(s) {
            Some(n) => n,
            None => {
                return ;
            },
        };
        let ghost o0 = self@.overlay->0;
        let mut asks = false;
        match &mut self.overlay {
            Some(o) => {
                let count: usize = o.items.len();
                assert(count == o@.items.len());
                if n < 1 || n > count {
                    return ;
                }
                o.selected = n - 1;
                match o.kind {
                    OverlayKind::Question => {
                        asks = true;
                    },
                    _ => {},
                }
            },
            None => {},
        }
        assert(self@.overlay == Some(OverlayModel { selected: n - 1, ..o0 }));
        if asks {
            self.take_row();
        }
    }

    fn on_overlay_key(&mut self, key: &Key)
        requires
            old(self)@.wf(),
            old(self)@.overlay is Some,
        ensures
            final(self)@ == old(self)@.overlay_key(old(self)@.overlay->0, key@),
            final(self)@.wf(),
    {
        let mut asks = false;
        let mut selected: usize = 0;
        match &self.overlay {
            Some(o) => {
                selected = o.selected;
                match o.kind {
                    OverlayKind::Question => {
                        asks = true;
                    },
                    _ => {},
                }
            },
            None => {},
        }
        match key {
            Key::Escape => {
                self.overlay = None;
                if asks {
                    self.dismiss_survey();
                }
            },
            Key::Return => {
                self.take_row();
            },
            Key::Text(s) => {
                if asks && same(s.as_str(), " ") {
                    self.toggle_multi_pick(selected);
                } else if all_digits(s.as_str()) {
                    self.jump_to_row(s.as_str());
                }
            },
            Key::Up => {
                match &mut self.overlay {
                    Some(o) => {
                        o.move_up();
                    },
                    None => {},
                }
            },
            Key::Down | Key::Tab => {
                match &mut self.overlay {
                    Some(o) => {
                        o.move_down();
                    },
                    None => {},
                }
            },
            Key::Ctrl(c) => {
                if *c == 'c' {
                    self.quit = true;
                }
            },
            _ => {},
        }
    }
}

// ---------------------------------------------------------------------------
// The composer
// ---------------------------------------------------------------------------

impl AppModel {
    /// A key that edits what is typed, live run or not.
    pub open spec fn edit_key(self, key: KeyModel) -> AppModel {
        let c = self.composer;
        match key {
            KeyModel::Left => self.typed(
                c.moved(
                    if c.cursor > 0 {
                        c.cursor - 1
                    } else {
                        0
                    },
                ),
            ),
            KeyModel::Right => self.typed(c.moved(c.cursor + 1)),
            KeyModel::Ctrl(k) => if k == 'a' {
                self.typed(c.moved(0))
            } else if k == 'e' {
                self.typed(c.moved(c.text.len() as int))
            } else if k == 'u' {
                self.typed(c.emptied())
            } else if k == 'c' {
                self.ended()
            } else {
                self
            },
            KeyModel::Paste(raw) => self.with(EffectModel::Paste(raw)),
            KeyModel::Text(s) => self.typed(c.inserted(s)),
            _ => self,
        }
    }

    /// Escape while a run is live: the run is asked to stop, and so are the
    /// commands that are under way.
    pub open spec fn run_escaped(self) -> AppModel {
        let asked = if self.abortable {
            self.with(EffectModel::Abort)
        } else {
            self
        };
        asked.with(EffectModel::StopCommands)
    }

    /// A key while a run is live.
    pub open spec fn running_key(self, key: KeyModel) -> AppModel {
        match key {
            KeyModel::Escape => self.run_escaped(),
            KeyModel::Return => self.submitted(),
            KeyModel::Backspace | KeyModel::Delete => self.typed(self.composer.erased()),
            KeyModel::Up => self.older_recalled(),
            KeyModel::Down => self.newer_recalled(),
            KeyModel::Ctrl(k) => if k == 's' {
                self.steered()
            } else {
                self.edit_key(key)
            },
            _ => self.edit_key(key),
        }
    }

    /// The head of the queue becomes a run; an empty queue submits what is
    /// typed.
    pub open spec fn queue_run(self) -> AppModel {
        if self.queued.len() == 0 {
            self.submitted()
        } else {
            self.queue_drained()
        }
    }

    /// The head of the queue, where there is one, becomes a run.
    pub open spec fn queue_drained(self) -> AppModel {
        if self.queued.len() == 0 {
            self
        } else {
            let left = AppModel { queued: self.queued.skip(1), ..self };
            if text::is_blank(self.queued[0]) {
                left
            } else {
                left.run_begun(self.queued[0])
            }
        }
    }

    /// Backspace: a character goes, and from an empty composer an image.
    pub open spec fn backed(self) -> AppModel {
        if self.composer.cursor == 0 && self.composer.text.len() == 0 && self.attachments.len()
            > 0 {
            AppModel { attachments: self.attachments.drop_last(), ..self }
        } else {
            self.typed(self.composer.erased())
        }
    }

    /// A key while no run is live.
    pub open spec fn idle_key(self, key: KeyModel) -> AppModel {
        let c = self.composer;
        match key {
            KeyModel::Escape => self.typed(c.emptied()),
            KeyModel::Return => if c.menu_length() > 0 && !c.is_exact() && c.can_accept() {
                self.typed(c.accepted())
            } else {
                self.submitted()
            },
            KeyModel::Tab => self.typed(c.accepted()),
            KeyModel::Up => if c.menu_length() > 0 {
                self.typed(c.selected_up())
            } else {
                self.older_recalled()
            },
            KeyModel::Down => if c.menu_length() > 0 {
                self.typed(c.selected_down())
            } else {
                self.newer_recalled()
            },
            KeyModel::Backspace | KeyModel::Delete => self.backed(),
            KeyModel::Ctrl(k) => if k == 's' {
                self.queue_run()
            } else if k == 'v' {
                self.with(EffectModel::CaptureClipboard)
            } else {
                self.edit_key(key)
            },
            _ => self.edit_key(key),
        }
    }

    /// A key. Mouse reports come before every place that takes text; then free
    /// text for a survey, then an open picker, then the composer.
    pub open spec fn keyed(self, key: KeyModel, output: Seq<char>) -> AppModel {
        match key {
            KeyModel::Mouse(event) => self.moused(event, output),
            _ => if self.takes_other() {
                self.other_key(self.survey->0.other_input->0, key)
            } else {
                match self.overlay {
                    Some(o) => if o.kind == OverlayKind::Skills {
                        self.skill_key(o, key)
                    } else if o.kind == OverlayKind::Jobs {
                        self.jobs_key(o, key)
                    } else {
                        self.overlay_key(o, key)
                    },
                    None => if key == KeyModel::Ctrl('b') {
                        self.jobs_asked(None)
                    } else if key == KeyModel::Escape && self.chats() {
                        self.survey_dismissed()
                    } else if self.running {
                        self.running_key(key)
                    } else {
                        self.idle_key(key)
                    },
                }
            },
        }
    }

    /// How many commands were stopped.
    pub open spec fn commands_stopped(self, stopped: nat) -> AppModel {
        if stopped > 0 {
            self.info(
                "esc — aborting the run and stopping "@ + text::decimal(stopped)
                    + " in-flight command(s)"@,
            )
        } else {
            self
        }
    }
}

impl TuiApp {
    fn on_edit_key(&mut self, key: &Key)
        requires
            old(self)@.wf(),
        ensures
            final(self)@ == old(self)@.edit_key(key@),
            final(self)@.wf(),
    {
        match key {
            Key::Left => {
                let cursor: usize = if self.composer.cursor > 0 {
                    self.composer.cursor - 1
                } else {
                    0
                };
                self.composer.move_to(cursor);
            },
            Key::Right => {
                let n: usize = self.composer.text.as_str().unicode_len();
                let ghost c = self.composer@;
                if self.composer.cursor < n {
                    self.composer.move_to(self.composer.cursor + 1);
                } else {
                    self.composer.move_to(n);
                    assert(self.composer@ == c.moved(c.cursor + 1));
                }
            },
            Key::Ctrl(k) => {
                if *k == 'a' {
                    self.composer.move_to(0);
                } else if *k == 'e' {
                    let n: usize = self.composer.text.as_str().unicode_len();
                    self.composer.move_to(n);
                } else if *k == 'u' {
                    self.composer.clear();
                } else if *k == 'c' {
                    self.quit = true;
                }
            },
            Key::Paste(raw) => {
                self.emit(Effect::Paste(raw.clone()));
            },
            Key::Text(s) => {
                self.composer.insert_text(s.as_str());
            },
            _ => {},
        }
    }

    fn escape_run(&mut self)
        requires
            old(self)@.wf(),
        ensures
            final(self)@ == old(self)@.run_escaped(),
            final(self)@.wf(),
    {
        if self.abortable {
            self.emit(Effect::Abort);
        }
        self.emit(Effect::StopCommands);
    }

    fn on_running_key(&mut self, key: &Key)
        requires
            old(self)@.wf(),
        ensures
            final(self)@ == old(self)@.running_key(key@),
            final(self)@.wf(),
    {
        match key {
            Key::Escape => {
                self.escape_run();
            },
            Key::Return => {
                self.submit();
            },
            Key::Backspace | Key::Delete => {
                self.composer.erase();
            },
            Key::Up => {
                self.recall_older_prompt();
            },
            Key::Down => {
                self.recall_newer_prompt();
            },
            Key::Ctrl(k) => {
                if *k == 's' {
                    self.steer_running_goal();
                } else {
                    self.on_edit_key(key);
                }
            },
            _ => {
                self.on_edit_key(key);
            },
        }
    }

    /// Turns the head of the queue, where there is one, into a run.
    pub fn drain_queue(&mut self)
        requires
            old(self)@.wf(),
        ensures
            final(self)@ == old(self)@.queue_drained(),
            final(self)@.wf(),
    {
        if self.queued_prompts.len() == 0 {
            return ;
        }
        let next = self.queued_prompts.remove(0);
        assert(next@ == old(self)@.queued[0]);
        assert(self@.queued =~= old(self)@.queued.skip(1));
        if !blank(next.as_str()) {
            self.run_goal(next);
        }
    }

    fn back_up(&mut self)
        requires
            old(self)@.wf(),
        ensures
            final(self)@ == old(self)@.backed(),
            final(self)@.wf(),
    {
        if self.composer.cursor == 0 && self.composer.text.as_str().unicode_len() == 0
            && self.attachments.len() > 0 {
            let _ = self.attachments.pop();
            assert(self@.attachments =~= old(self)@.attachments.drop_last());
        } else {
            self.composer.erase();
        }
    }

    fn on_idle_key(&mut self, key: &Key)
        requires
            old(self)@.wf(),
        ensures
            final(self)@ == old(self)@.idle_key(key@),
            final(self)@.wf(),
    {
        match key {
            Key::Escape => {
                self.composer.clear();
            },
            Key::Return => {
                if self.composer.menu_length() > 0 && !self.composer.is_exact() {
                    let ghost c = self.composer@;
                    if self.composer.accept_suggestion() {
                        return ;
                    }
                    assert(c.accepted() == c);
                }
                self.submit();
            },
            Key::Tab => {
                let _ = self.composer.accept_suggestion();
            },
            Key::Up => {
                if self.composer.menu_length() > 0 {
                    self.composer.select_up();
                } else {
                    self.recall_older_prompt();
                }
            },
            Key::Down => {
                if self.composer.menu_length() > 0 {
                    self.composer.select_down();
                } else {
                    self.recall_newer_prompt();
                }
            },
            Key::Backspace | Key::Delete => {
                self.back_up();
            },
            Key::Ctrl(k) => {
                if *k == 's' {
                    if self.queued_prompts.len() == 0 {
                        self.submit();
                    } else {
                        self.drain_queue();
                    }
                } else if *k == 'v' {
                    self.emit(Effect::CaptureClipboard);
                } else {
                    self.on_edit_key(key);
                }
            },
            _ => {
                self.on_edit_key(key);
            },
        }
    }

    /// A key. `output` is the tail of the log of the job that is shown in
    /// detail.
    pub fn on_key(&mut self, key: &Key, output: &str)
        requires
            old(self)@.wf(),
        ensures
            final(self)@ == old(self)@.keyed(key@, output@),
            final(self)@.wf(),
    {
        match key {
            Key::Mouse(event) => {
                self.on_mouse(*event, output);
                return ;
            },
            _ => {},
        }
        let input = match &self.survey {
            Some(s) => crate::transcript::clone_opt(&s.other_input),
            None => None,
        };
        match input {
            Some(typed) => {
                self.on_other_key(typed, key);
                return ;
            },
            None => {},
        }
        if self.on_skill_picker_key(key) {
            return ;
        }
        if self.on_jobs_key(key) {
            return ;
        }
        if self.overlay.is_some() {
            self.on_overlay_key(key);
            return ;
        }
        match key {
            Key::Ctrl(k) => {
                if *k == 'b' {
                    self.emit(Effect::OpenJobs { row: None });
                    return ;
                }
            },
            Key::Escape => {
                let chats = match &self.survey {
                    Some(s) => s.chat_mode,
                    None => false,
                };
                if chats {
                    self.dismiss_survey();
                    return ;
                }
            },
            _ => {},
        }
        if self.running {
            self.on_running_key(key);
        } else {
            self.on_idle_key(key);
        }
    }

    /// Takes in how many commands were stopped.
    pub fn report_stopped(&mut self, stopped: usize)
        requires
            old(self)@.wf(),
        ensures
            final(self)@ == old(self)@.commands_stopped(stopped as nat),
            final(self)@.wf(),
    {
        if stopped > 0 {
            let n = format_decimal(stopped as u64);
            let said = concat3(
                "esc — aborting the run and stopping ",
                n.as_str(),
                " in-flight command(s)",
            );
            self.push_info(said.as_str());
        }
    }
}

// ---------------------------------------------------------------------------
// Laws
// ---------------------------------------------------------------------------

/// A mouse report is never typed: not into the composer, not into a survey, and
/// not into a search.
pub proof fn law_a_mouse_report_is_never_typed(
    app: AppModel,
    event: crate::tui::app::input::MouseEvent,
    output: Seq<char>,
)
    ensures
        app.keyed(KeyModel::Mouse(event), output).composer == app.composer,
        app.keyed(KeyModel::Mouse(event), output).survey == app.survey,
        app.keyed(KeyModel::Mouse(event), output).overlay == app.overlay,
        app.keyed(KeyModel::Mouse(event), output).running == app.running,
{
}

proof fn lemma_picking_types_nothing(app: AppModel, kind: OverlayKind, item: ItemModel)
    ensures
        app.item_picked(kind, item).composer == app.composer,
        app.item_picked(kind, item).running == app.running,
{
}

/// While a picker is open or free text is typed for a survey, no key reaches
/// the composer or starts a run.
pub proof fn law_a_picker_keeps_keys_from_the_composer(
    app: AppModel,
    key: KeyModel,
    output: Seq<char>,
)
    requires
        app.overlay is Some || app.takes_other(),
    ensures
        app.keyed(key, output).composer == app.composer,
        app.keyed(key, output).running == app.running,
{
    if !app.takes_other() {
        let o = app.overlay->0;
        let closed = AppModel { overlay: None, ..app };
        if o.picked() is Some {
            lemma_picking_types_nothing(closed, o.kind, o.picked()->0);
        }
        match key {
            KeyModel::Text(s) => {
                match text::number(s) {
                    Some(n) => {
                        let there = OverlayModel { selected: n - 1, ..o };
                        if there.picked() is Some {
                            lemma_picking_types_nothing(closed, o.kind, there.picked()->0);
                        }
                    },
                    None => {},
                }
            },
            _ => {},
        }
    }
}

/// Ctrl+c ends the session from everywhere.
pub proof fn law_ctrl_c_always_quits(app: AppModel, output: Seq<char>)
    ensures
        app.keyed(KeyModel::Ctrl('c'), output).quit,
{
}

/// Escape on a live run stops its commands, and asks the run to stop where it
/// can be asked.
pub proof fn law_escape_stops_the_run(app: AppModel, output: Seq<char>)
    requires
        app.running,
        app.overlay is None,
        !app.takes_other(),
        !app.chats(),
    ensures
        app.keyed(KeyModel::Escape, output).effects.last() == EffectModel::StopCommands,
        app.abortable ==> app.keyed(KeyModel::Escape, output).effects == app.effects.push(
            EffectModel::Abort,
        ).push(EffectModel::StopCommands),
{
}

/// Typing one character and erasing it gives the text back, live run or not.
pub proof fn law_backspace_undoes_a_character(app: AppModel, c: char, output: Seq<char>)
    requires
        app.wf(),
        app.overlay is None,
        !app.takes_other(),
    ensures
        ({
            let typed = app.keyed(KeyModel::Text(seq![c]), output);
            let back = typed.keyed(KeyModel::Backspace, output);
            &&& back.composer.text == app.composer.text
            &&& back.composer.cursor == app.composer.cursor
            &&& back.attachments == app.attachments
        }),
{
    crate::tui::app::composer::law_erasing_undoes_typing(app.composer, c);
}

/// Whether keys go to the composer: no picker is open, and no survey takes the
/// next text.
pub open spec fn composes(app: AppModel) -> bool {
    app.overlay is None && !app.takes_other()
}

/// What is typed goes into the composer, and a paste is handed on as it came,
/// live run or not.
pub proof fn law_typed_text_reaches_the_composer(app: AppModel, s: Seq<char>, output: Seq<char>)
    requires
        composes(app),
    ensures
        app.keyed(KeyModel::Text(s), output) == (AppModel {
            composer: app.composer.inserted(s),
            ..app
        }),
        app.keyed(KeyModel::Paste(s), output).effects == app.effects.push(EffectModel::Paste(s)),
        app.keyed(KeyModel::Paste(s), output).composer == app.composer,
{
}

/// The keys that move the cursor: left and right by one character, within the
/// text, ctrl+a to its start and ctrl+e to its end. Ctrl+u empties the line.
/// None of them changes anything else.
pub proof fn law_the_cursor_keys_move_the_cursor(app: AppModel, output: Seq<char>)
    requires
        app.wf(),
        composes(app),
    ensures
        ({
            let c = app.composer;
            let left = app.keyed(KeyModel::Left, output);
            let right = app.keyed(KeyModel::Right, output);
            let home = app.keyed(KeyModel::Ctrl('a'), output);
            let end = app.keyed(KeyModel::Ctrl('e'), output);
            let gone = app.keyed(KeyModel::Ctrl('u'), output);
            &&& c.cursor > 0 ==> left.composer.cursor == c.cursor - 1
            &&& c.cursor == 0 ==> left.composer.cursor == 0
            &&& c.cursor < c.text.len() ==> right.composer.cursor == c.cursor + 1
            &&& c.cursor == c.text.len() ==> right.composer.cursor == c.cursor
            &&& home.composer.cursor == 0
            &&& end.composer.cursor == c.text.len()
            &&& left.composer.text == c.text && right.composer.text == c.text
                && home.composer.text == c.text && end.composer.text == c.text
            &&& gone.composer.text.len() == 0
            &&& left == (AppModel { composer: left.composer, ..app })
            &&& right == (AppModel { composer: right.composer, ..app })
            &&& home == (AppModel { composer: home.composer, ..app })
            &&& end == (AppModel { composer: end.composer, ..app })
            &&& gone == (AppModel { composer: gone.composer, ..app })
        }),
{
}

/// While nothing runs, escape empties the line, tab accepts the selected row,
/// ctrl+v asks for the clipboard, and backspace erases, or in an empty line
/// takes the last image away.
pub proof fn law_idle_keys_edit_the_line(app: AppModel, output: Seq<char>)
    requires
        composes(app),
        !app.running,
        !app.chats(),
    ensures
        app.keyed(KeyModel::Escape, output).composer.text.len() == 0,
        app.keyed(KeyModel::Escape, output).effects == app.effects,
        app.keyed(KeyModel::Tab, output).composer == app.composer.accepted(),
        app.keyed(KeyModel::Ctrl('v'), output).effects == app.effects.push(
            EffectModel::CaptureClipboard,
        ),
        ({
            let back = app.keyed(KeyModel::Backspace, output);
            let empty = app.composer.cursor == 0 && app.composer.text.len() == 0
                && app.attachments.len() > 0;
            &&& empty ==> back.attachments == app.attachments.drop_last() && back.composer
                == app.composer
            &&& !empty ==> back.attachments == app.attachments && back.composer
                == app.composer.erased()
            &&& app.keyed(KeyModel::Delete, output) == back
        }),
{
}

/// Up and down walk the open menu where there is one, and the lines and the
/// history where there is none; while a run is live always the latter.
pub proof fn law_arrows_walk_the_menu_first(app: AppModel, output: Seq<char>)
    requires
        composes(app),
    ensures
        !app.running && app.composer.menu_length() > 0 ==> {
            &&& app.keyed(KeyModel::Up, output).composer == app.composer.selected_up()
            &&& app.keyed(KeyModel::Down, output).composer == app.composer.selected_down()
        },
        app.running || app.composer.menu_length() == 0 ==> {
            &&& app.keyed(KeyModel::Up, output) == app.older_recalled()
            &&& app.keyed(KeyModel::Down, output) == app.newer_recalled()
        },
{
}

/// Enter completes a row of the open menu that is not typed out yet, and else
/// submits; while a run is live it always submits.
pub proof fn law_enter_completes_or_submits(app: AppModel, output: Seq<char>)
    requires
        composes(app),
    ensures
        ({
            let c = app.composer;
            let completes = !app.running && c.menu_length() > 0 && !c.is_exact() && c.can_accept();
            &&& completes ==> app.keyed(KeyModel::Return, output).composer == c.accepted()
                && app.keyed(KeyModel::Return, output).effects == app.effects
            &&& !completes ==> app.keyed(KeyModel::Return, output) == app.submitted()
        }),
{
}

/// Ctrl+s steers a live run. While nothing runs it starts the first message of
/// the queue, which leaves it; with an empty queue it submits what is typed.
pub proof fn law_ctrl_s_steers_or_runs_the_queue(app: AppModel, output: Seq<char>)
    requires
        composes(app),
    ensures
        app.running ==> app.keyed(KeyModel::Ctrl('s'), output) == app.steered(),
        !app.running && app.queued.len() == 0 ==> app.keyed(KeyModel::Ctrl('s'), output)
            == app.submitted(),
        !app.running && app.queued.len() > 0 && !text::is_blank(app.queued[0]) ==> {
            let next = app.keyed(KeyModel::Ctrl('s'), output);
            &&& next.queued == app.queued.skip(1)
            &&& next.running
            &&& next.effects == app.effects.push(
                EffectModel::StartRun(app.queued[0], app.attachments),
            )
        },
        !app.running && app.queued.len() > 0 && text::is_blank(app.queued[0]) ==> {
            let next = app.keyed(KeyModel::Ctrl('s'), output);
            &&& next.queued == app.queued.skip(1)
            &&& !next.running
            &&& next.effects == app.effects
        },
{
}

/// Ctrl+b opens the jobs; escape in a chat dismisses the survey.
pub proof fn law_ctrl_b_opens_the_jobs(app: AppModel, output: Seq<char>)
    requires
        composes(app),
    ensures
        app.keyed(KeyModel::Ctrl('b'), output) == app.jobs_asked(None),
        app.chats() ==> app.keyed(KeyModel::Escape, output) == app.survey_dismissed(),
{
}

/// What was picked is what is asked for: a model, a tool model, a prompt or a
/// session by its id, a job by its number. A row of a question answers it with
/// its own text, but for the three special rows.
pub proof fn law_what_was_picked_is_asked_for(app: AppModel, item: ItemModel)
    ensures
        app.item_picked(OverlayKind::Model, item).effects == app.effects.push(
            EffectModel::SelectProfile(item.id),
        ),
        app.item_picked(OverlayKind::ToolModel, item).effects == app.effects.push(
            EffectModel::SelectToolProfile(item.id),
        ),
        app.item_picked(OverlayKind::Prompt, item).effects == app.effects.push(
            EffectModel::SelectPrompt(item.id),
        ),
        app.item_picked(OverlayKind::Sessions, item).effects == app.effects.push(
            EffectModel::OpenSession(item.id),
        ),
        text::number(item.id) matches Some(i) ==> app.item_picked(
            OverlayKind::Jobs,
            item,
        ).effects == app.effects.push(EffectModel::OpenJobDetail(i)),
        item.id == "\u{0}confirm"@ ==> app.item_picked(OverlayKind::Question, item)
            == app.picks_confirmed(),
        item.id == "\u{0}other"@ ==> app.item_picked(OverlayKind::Question, item)
            == app.other_asked(),
        item.id == "\u{0}chat"@ ==> app.item_picked(OverlayKind::Question, item)
            == app.chat_begun(),
        item.id != "\u{0}confirm"@ && item.id != "\u{0}other"@ && item.id != "\u{0}chat"@
            ==> app.item_picked(OverlayKind::Question, item) == app.survey_answered(
            Some(item.id),
            None,
        ),
{
    reveal_strlit("\u{0}confirm");
    reveal_strlit("\u{0}other");
    reveal_strlit("\u{0}chat");
    assert("\u{0}confirm"@.len() == 8 && "\u{0}other"@.len() == 6 && "\u{0}chat"@.len() == 5);
}

/// The keys of a picker: up and down move, enter takes the selected row and
/// closes, escape closes without taking one, and dismisses the survey that
/// asked. A digit goes to its row, and of a question answers it. Space marks.
pub proof fn law_a_pickers_keys_do_what_they_say(app: AppModel, o: OverlayModel, n: int)
    requires
        0 <= o.selected < o.items.len(),
        1 <= n <= 9,
    ensures
        ({
            let closed = AppModel { overlay: None, ..app };
            let digit = seq!["0123456789"@[n]];
            let there = OverlayModel { selected: n - 1, ..o };
            &&& app.overlay_key(o, KeyModel::Up).overlay == Some(o.moved_up())
            &&& app.overlay_key(o, KeyModel::Down).overlay == Some(o.moved_down())
            &&& app.overlay_key(o, KeyModel::Tab).overlay == Some(o.moved_down())
            &&& app.overlay_key(o, KeyModel::Return) == closed.item_picked(
                o.kind,
                o.items[o.selected],
            )
            &&& o.kind != OverlayKind::Question ==> app.overlay_key(o, KeyModel::Escape) == closed
            &&& o.kind == OverlayKind::Question ==> app.overlay_key(o, KeyModel::Escape)
                == closed.survey_dismissed()
            &&& n <= o.items.len() && o.kind != OverlayKind::Question ==> app.overlay_key(
                o,
                KeyModel::Text(digit),
            ).overlay == Some(there)
            &&& n <= o.items.len() && o.kind == OverlayKind::Question ==> app.overlay_key(
                o,
                KeyModel::Text(digit),
            ) == closed.item_picked(o.kind, o.items[n - 1])
            &&& n > o.items.len() ==> app.overlay_key(o, KeyModel::Text(digit)) == app
            &&& o.kind == OverlayKind::Question ==> app.overlay_key(o, KeyModel::Text(seq![' ']))
                == app.pick_toggled(o.selected)
        }),
{
    text::law_digits_count_by_tens(Seq::empty(), n);
    reveal_strlit("0123456789");
    reveal_strlit(" ");
    assert(" "@ =~= seq![' ']);
    let digit = seq!["0123456789"@[n]];
    assert(digit[0] != ' ');
    assert(text::is_digits(digit));
    assert(text::number(digit) == Some(n as usize));
}

/// Free text for a survey is typed and erased like any other; enter gives it as
/// the answer, without white space around it, and escape goes back to the
/// choices without one.
pub proof fn law_free_text_becomes_the_answer(app: AppModel, input: Seq<char>, s: Seq<char>)
    requires
        app.survey is Some,
    ensures
        ({
            let s0 = app.survey->0;
            &&& !text::is_blank(input) ==> app.other_key(input, KeyModel::Return)
                == app.survey_answered(None, Some(text::trimmed(input)))
            &&& text::is_blank(input) ==> app.other_key(input, KeyModel::Return) == app.info(
                "type a free-text answer, or esc to go back to the choices"@,
            )
            &&& app.other_key(input, KeyModel::Text(s)).survey == Some(
                SurveyModel { other_input: Some(input + s), ..s0 },
            )
            &&& app.other_key(input, KeyModel::Paste(s)).survey == Some(
                SurveyModel { other_input: Some(input + s), ..s0 },
            )
            &&& input.len() > 0 ==> app.other_key(input, KeyModel::Backspace).survey == Some(
                SurveyModel { other_input: Some(input.drop_last()), ..s0 },
            )
            &&& app.other_key(input, KeyModel::Escape).survey == Some(
                SurveyModel { other_input: None, ..s0 },
            )
            &&& app.other_key(input, KeyModel::Escape).effects == app.effects
        }),
{
}

/// What became of a choice is said: what it was set to, or why it was not kept.
pub proof fn law_a_choice_is_confirmed(
    app: AppModel,
    kind: OverlayKind,
    id: Seq<char>,
    error: Seq<char>,
)
    ensures
        app.choice_kept(kind, id, Some(error)) == app.error(error),
        app.choice_kept(OverlayKind::Model, id, None) == app.info("model profile set to "@ + id),
        app.choice_kept(OverlayKind::Prompt, id, None) == app.info("system prompt set to "@ + id),
        app.choice_kept(OverlayKind::ToolModel, id, None) == app.info(
            replies::tool_choice_said(id),
        ),
{
}

/// Commands that were stopped are counted; where none was, nothing is said.
pub proof fn law_stopped_commands_are_counted(app: AppModel, stopped: nat)
    ensures
        stopped == 0 ==> app.commands_stopped(stopped) == app,
        stopped > 0 ==> app.commands_stopped(stopped) == app.info(
            "esc — aborting the run and stopping "@ + text::decimal(stopped)
                + " in-flight command(s)"@,
        ),
{
}

/// Keys go where the operator looks: to the free text of a survey, else to the
/// open picker, each kind with its own keys, else to the composer.
pub proof fn law_keys_go_to_what_is_open(app: AppModel, key: KeyModel, output: Seq<char>)
    requires
        !(key is Mouse),
    ensures
        app.takes_other() ==> app.keyed(key, output) == app.other_key(
            app.survey->0.other_input->0,
            key,
        ),
        !app.takes_other() ==> (app.overlay matches Some(o) ==> {
            &&& o.kind == OverlayKind::Skills ==> app.keyed(key, output) == app.skill_key(o, key)
            &&& o.kind == OverlayKind::Jobs ==> app.keyed(key, output) == app.jobs_key(o, key)
            &&& o.kind != OverlayKind::Skills && o.kind != OverlayKind::Jobs ==> app.keyed(
                key,
                output,
            ) == app.overlay_key(o, key)
        }),
{
}

/// A mouse report goes to what it points at, wherever the keys go.
pub proof fn law_a_mouse_report_goes_to_what_it_points_at(
    app: AppModel,
    event: crate::tui::app::input::MouseEvent,
    output: Seq<char>,
)
    ensures
        app.keyed(KeyModel::Mouse(event), output) == app.moused(event, output),
{
}

} // verus!
