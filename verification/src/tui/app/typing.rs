//! The composer in the session: recalling prompts, submitting, queueing for the
//! next run, steering the live one, and pasting.

use vstd::prelude::*;
use crate::json;
use crate::json::{empty_object, print_line, put_text, FieldModel};
use crate::text;
use crate::text::{
    blank, chars_of, concat2, concat3, format_decimal, same, skip_chars, string_of, sub_string,
    trim,
};
use crate::transcript::EntryModel;
use crate::tui::app::effects::{Attachment, Effect, EffectModel};
use crate::tui::app::history;
use crate::tui::app::history::HistoryModel;
use crate::tui::app::layout;
use crate::tui::app::layout::{
    composer_cursor_at, composer_cursor_position, composer_lines, composer_text_width,
};
use crate::tui::app::slash;
use crate::tui::app::slash::parse_slash_command;
use crate::tui::app::state::{AppModel, TuiApp};
use crate::tui::evals::push_row;

verus! {

// ---------------------------------------------------------------------------
// The inbox of a run
// ---------------------------------------------------------------------------

/// The fields of a message to a live run: when it was sent, and what it says.
pub open spec fn message_fields(at: Seq<char>, message: Seq<char>) -> Seq<(Seq<char>, FieldModel)> {
    seq![("at"@, FieldModel::Text(at)), ("text"@, FieldModel::Text(message))]
}

/// The line of a run's inbox that holds a message of the operator. Reading it
/// gives back the message.
pub fn operator_line(at: &str, message: &str) -> (r: String)
    ensures
        r@ == json::printed_line(message_fields(at@, message@)) + "\n"@,
        json::is_one_line(r@.drop_last()),
        json::parsed_fields(r@) == Some(message_fields(at@, message@)),
{
    let mut object = empty_object();
    put_text(&mut object, "at", at);
    put_text(&mut object, "text", message);
    proof {
        reveal_strlit("at");
        reveal_strlit("text");
        reveal_strlit("\n");
        let none = Seq::<(Seq<char>, FieldModel)>::empty();
        let first = seq![("at"@, FieldModel::Text(at@))];
        assert(json::with_field(none, "at"@, FieldModel::Text(at@)) =~= first);
        assert("at"@.len() != "text"@.len());
        assert(first.skip(1) =~= none);
        assert(json::with_field(none, "text"@, FieldModel::Text(message@)) =~= seq![
            ("text"@, FieldModel::Text(message@)),
        ]);
        assert(json::with_field(first, "text"@, FieldModel::Text(message@)) =~= message_fields(
            at@,
            message@,
        ));
        assert(json::object_fields(object) =~= message_fields(at@, message@));
    }
    let printed = print_line(object);
    let line = concat2(printed.as_str(), "\n");
    assert(line@.drop_last() =~= printed@);
    line
}

// ---------------------------------------------------------------------------
// Recalling prompts
// ---------------------------------------------------------------------------

impl AppModel {
    /// The width of the composer's text.
    pub open spec fn body(self) -> nat {
        layout::body_columns(self.cols as nat)
    }

    /// The line and the column of the cursor.
    pub open spec fn cursor_spot(self) -> (int, int) {
        layout::cursor_position(self.composer.text, self.body(), self.composer.cursor)
    }

    /// How many lines the text takes.
    pub open spec fn line_count(self) -> nat {
        layout::line_ranges(self.composer.text, self.body(), 0).len()
    }

    /// The cursor on another line, in the same column.
    pub open spec fn on_line(self, line: int) -> AppModel {
        self.typed(
            self.composer.moved(
                layout::cursor_at(self.composer.text, self.body(), line, self.cursor_spot().1),
            ),
        )
    }

    /// A recalled prompt in the composer.
    pub open spec fn recalled(self, h: HistoryModel, prompt: Option<Seq<char>>) -> AppModel {
        let walked = AppModel { history: h, ..self };
        match prompt {
            Some(p) => walked.typed(self.composer.edited(p, p.len() as int)),
            None => walked,
        }
    }

    /// Up: one line up in the text, and from its first line to an older prompt.
    pub open spec fn older_recalled(self) -> AppModel {
        if self.cursor_spot().0 > 0 {
            self.on_line(self.cursor_spot().0 - 1)
        } else {
            self.recalled(
                self.history.stepped_back(self.composer.text),
                self.history.recalled_back(),
            )
        }
    }

    /// Down: one line down in the text, and from its last line to a newer
    /// prompt.
    pub open spec fn newer_recalled(self) -> AppModel {
        if self.cursor_spot().0 < self.line_count() - 1 {
            self.on_line(self.cursor_spot().0 + 1)
        } else {
            self.recalled(self.history.stepped_forward(), self.history.recalled_forward())
        }
    }
}

impl TuiApp {
    /// Up.
    pub fn recall_older_prompt(&mut self)
        requires
            old(self)@.wf(),
        ensures
            final(self)@ == old(self)@.older_recalled(),
            final(self)@.wf(),
    {
        let width: usize = composer_text_width(self.cols);
        let (line, column) = composer_cursor_position(
            self.composer.text.as_str(),
            width,
            self.composer.cursor,
        );
        if line > 0 {
            let cursor: usize = composer_cursor_at(
                self.composer.text.as_str(),
                width,
                line - 1,
                column,
            );
            self.composer.move_to(cursor);
            return ;
        }
        match self.prompt_history.older(self.composer.text.as_str()) {
            Some(prompt) => {
                let cursor: usize = prompt.as_str().unicode_len();
                self.composer.apply_edit(prompt, cursor);
            },
            None => {},
        }
    }

    /// Down.
    pub fn recall_newer_prompt(&mut self)
        requires
            old(self)@.wf(),
        ensures
            final(self)@ == old(self)@.newer_recalled(),
            final(self)@.wf(),
    {
        let width: usize = composer_text_width(self.cols);
        let (line, column) = composer_cursor_position(
            self.composer.text.as_str(),
            width,
            self.composer.cursor,
        );
        let lines = composer_lines(self.composer.text.as_str(), width);
        assert(lines@.len() == layout::range_models(lines@).len());
        if line < lines.len() - 1 {
            let cursor: usize = composer_cursor_at(
                self.composer.text.as_str(),
                width,
                line + 1,
                column,
            );
            self.composer.move_to(cursor);
            return ;
        }
        match self.prompt_history.newer() {
            Some(prompt) => {
                let cursor: usize = prompt.as_str().unicode_len();
                self.composer.apply_edit(prompt, cursor);
            },
            None => {},
        }
    }
}

// ---------------------------------------------------------------------------
// Submitting and queueing
// ---------------------------------------------------------------------------

impl AppModel {
    /// A message waits for the next run.
    pub open spec fn prompt_queued(self, prompt: Seq<char>) -> AppModel {
        if text::is_blank(prompt) {
            self
        } else {
            AppModel {
                history: self.history.recorded(prompt),
                queued: self.queued.push(prompt),
                ..self
            }
        }
    }

    /// A message that left the composer, where it is not empty.
    pub open spec fn message_taken(self, message: Seq<char>) -> AppModel {
        if self.chats() {
            if message.len() > 0 {
                self.with(EffectModel::WriteChat(message))
            } else {
                self
            }
        } else {
            match slash::parsed_command(message) {
                Some((name, args)) => if !self.running || name == "rename"@ {
                    self.dispatched(name, args)
                } else {
                    self.prompt_queued(message)
                },
                None => if self.running {
                    self.prompt_queued(message)
                } else if message.len() > 0 && message[0] == '/' && self.knows_skill(
                    message.skip(1),
                ) {
                    self.skill_named(message.skip(1))
                } else {
                    self.goal_submitted(message)
                },
            }
        }
    }

    /// Enter: what is typed leaves the composer.
    pub open spec fn submitted(self) -> AppModel {
        let message = text::trimmed(self.composer.text);
        if message.len() == 0 && self.attachments.len() == 0 {
            self
        } else {
            self.typed(self.composer.emptied()).message_taken(message)
        }
    }
}

impl TuiApp {
    /// Holds a message for the next run.
    pub fn queue_prompt(&mut self, prompt: String)
        requires
            old(self)@.wf(),
        ensures
            final(self)@ == old(self)@.prompt_queued(prompt@),
            final(self)@.wf(),
    {
        if blank(prompt.as_str()) {
            return ;
        }
        self.prompt_history.record(prompt.as_str());
        push_row(&mut self.queued_prompts, prompt);
    }

    fn take_message(&mut self, message: String)
        requires
            old(self)@.wf(),
        ensures
            final(self)@ == old(self)@.message_taken(message@),
            final(self)@.wf(),
    {
        let chats = match &self.survey {
            Some(s) => s.chat_mode,
            None => false,
        };
        if chats {
            if message.as_str().unicode_len() > 0 {
                self.record_chat_reply(message);
            }
            return ;
        }
        let command = parse_slash_command(message.as_str());
        if self.running {
            match command {
                Some(c) => {
                    if same(c.name.as_str(), "rename") {
                        self.dispatch_command(c.name.as_str(), c.args.as_str());
                    } else {
                        self.queue_prompt(message);
                    }
                },
                None => {
                    self.queue_prompt(message);
                },
            }
            return ;
        }
        match command {
            Some(c) => {
                self.dispatch_command(c.name.as_str(), c.args.as_str());
                return ;
            },
            None => {},
        }
        let n: usize = message.as_str().unicode_len();
        if n > 0 && message.as_str().get_char(0) == '/' {
            let name = skip_chars(message.as_str(), 1);
            if self.enable_skill_if_discovered(name.as_str()) {
                return ;
            }
        }
        self.submit_goal_text(message);
    }

    /// Enter.
    pub fn submit(&mut self)
        requires
            old(self)@.wf(),
        ensures
            final(self)@ == old(self)@.submitted(),
            final(self)@.wf(),
    {
        let message = trim(self.composer.text.as_str());
        if message.as_str().unicode_len() == 0 && self.attachments.len() == 0 {
            return ;
        }
        self.composer.clear();
        self.take_message(message);
    }
}

// ---------------------------------------------------------------------------
// Steering
// ---------------------------------------------------------------------------

/// The messages that say something.
pub open spec fn spoken(queued: Seq<Seq<char>>) -> Seq<Seq<char>>
    decreases queued.len(),
{
    if queued.len() == 0 {
        Seq::empty()
    } else {
        let before = spoken(queued.drop_last());
        if text::is_blank(queued.last()) {
            before
        } else {
            before.push(queued.last())
        }
    }
}

/// What is left of a queue once `sent` messages that say something have gone.
pub open spec fn unsent(queued: Seq<Seq<char>>, sent: nat) -> Seq<Seq<char>>
    decreases queued.len(),
{
    if queued.len() == 0 {
        queued
    } else if text::is_blank(queued[0]) {
        unsent(queued.skip(1), sent)
    } else if sent == 0 {
        queued
    } else {
        unsent(queued.skip(1), (sent - 1) as nat)
    }
}

impl AppModel {
    /// The live run is to be steered: with what is typed, or else with the
    /// queue.
    pub open spec fn steered(self) -> AppModel {
        let message = text::trimmed(self.composer.text);
        if message.len() > 0 {
            AppModel {
                composer: self.composer.emptied(),
                history: self.history.recorded(message),
                ..self
            }.with(EffectModel::SteerTyped(message))
        } else if spoken(self.queued).len() == 0 {
            AppModel { queued: Seq::empty(), ..self }.info(
                "nothing to steer with — type a message, or queue one with enter first."@,
            )
        } else {
            self.with(EffectModel::SteerQueue(spoken(self.queued)))
        }
    }

    /// What became of steering with a typed message. One that did not get there
    /// waits at the head of the queue.
    pub open spec fn typed_sent(self, message: Seq<char>, failure: Option<Seq<char>>) -> AppModel {
        match failure {
            None => self.info(
                "steering the running goal: "@ + message
                    + " (it lands at the next cycle boundary)"@,
            ),
            Some(error) => {
                let told = self.error(
                    "could not steer the running goal ("@ + error + ") — kept in the queue"@,
                );
                AppModel { queued: seq![message] + told.queued, ..told }
            },
        }
    }

    /// What became of steering with the queue: what did not get there still
    /// waits, in order.
    pub open spec fn queue_sent(self, sent: nat, failure: Option<Seq<char>>) -> AppModel {
        let left = AppModel { queued: unsent(self.queued, sent), ..self };
        let told = match failure {
            None => left,
            Some(error) => left.error(
                "could not steer the running goal ("@ + error + ") — "@ + text::decimal(
                    left.queued.len(),
                ) + " kept in the queue"@,
            ),
        };
        if sent > 0 {
            told.info(
                "steering the running goal with "@ + text::decimal(sent) + (if sent == 1 {
                    " queued message"@
                } else {
                    " queued messages"@
                }) + " (they land at the next cycle boundary)"@,
            )
        } else {
            told
        }
    }
}

fn collect_spoken(queued: &Vec<String>) -> (r: Vec<String>)
    ensures
        text::texts(r@) == spoken(text::texts(queued@)),
{
    let ghost all = text::texts(queued@);
    let mut out: Vec<String> = Vec::new();
    let mut i: usize = 0;
    assert(text::texts(out@) =~= spoken(all.take(0)));
    while i < queued.len()
        invariant
            i <= queued.len(),
            all == text::texts(queued@),
            text::texts(out@) == spoken(all.take(i as int)),
        decreases queued.len() - i,
    {
        assert(all.take(i + 1).drop_last() =~= all.take(i as int));
        assert(all.take(i + 1).last() == queued@[i as int]@);
        if !blank(queued[i].as_str()) {
            push_row(&mut out, queued[i].clone());
        }
        i = i + 1;
    }
    assert(all.take(i as int) =~= all);
    out
}

fn drop_sent(queued: &Vec<String>, sent: usize) -> (r: Vec<String>)
    ensures
        text::texts(r@) == unsent(text::texts(queued@), sent as nat),
{
    let ghost all = text::texts(queued@);
    let mut i: usize = 0;
    let mut todo: usize = sent;
    assert(all.skip(0) =~= all);
    while i < queued.len() && (todo > 0 || blank(queued[i].as_str()))
        invariant
            i <= queued.len(),
            all == text::texts(queued@),
            unsent(all.skip(i as int), todo as nat) == unsent(all, sent as nat),
        decreases queued.len() - i,
    {
        assert(all.skip(i as int)[0] == queued@[i as int]@);
        assert(all.skip(i as int).skip(1) =~= all.skip(i + 1));
        if !blank(queued[i].as_str()) {
            todo = todo - 1;
        }
        i = i + 1;
    }
    proof {
        if i < queued@.len() {
            assert(all.skip(i as int)[0] == queued@[i as int]@);
        }
        assert(unsent(all.skip(i as int), todo as nat) == all.skip(i as int));
    }
    let ghost from = i;
    let ghost left = all.skip(from as int);
    let mut out: Vec<String> = Vec::new();
    assert(text::texts(out@) =~= left.take(0));
    while i < queued.len()
        invariant
            from <= i <= queued.len(),
            all == text::texts(queued@),
            left == all.skip(from as int),
            text::texts(out@) == left.take(i - from),
        decreases queued.len() - i,
    {
        push_row(&mut out, queued[i].clone());
        assert(left.take(i - from + 1) =~= left.take(i - from).push(left[i - from]));
        i = i + 1;
    }
    assert(left.take(i - from) =~= left);
    out
}

impl TuiApp {
    /// Steers the live run: with what is typed, or else with the whole queue.
    pub fn steer_running_goal(&mut self)
        requires
            old(self)@.wf(),
        ensures
            final(self)@ == old(self)@.steered(),
            final(self)@.wf(),
    {
        let message = trim(self.composer.text.as_str());
        if message.as_str().unicode_len() > 0 {
            self.composer.clear();
            self.prompt_history.record(message.as_str());
            self.emit(Effect::SteerTyped(message));
            return ;
        }
        let messages = collect_spoken(&self.queued_prompts);
        assert(text::texts(messages@).len() == messages@.len());
        if messages.len() == 0 {
            self.queued_prompts = Vec::new();
            assert(self@.queued =~= Seq::empty());
            self.push_info(
                "nothing to steer with — type a message, or queue one with enter first.",
            );
        } else {
            self.emit(Effect::SteerQueue(messages));
        }
    }

    /// Takes in what became of steering with a typed message.
    pub fn finish_typed_steer(&mut self, message: String, failure: Option<String>)
        requires
            old(self)@.wf(),
        ensures
            final(self)@ == old(self)@.typed_sent(message@, text::opt_text(failure)),
            final(self)@.wf(),
    {
        match failure {
            None => {
                let said = concat3(
                    "steering the running goal: ",
                    message.as_str(),
                    " (it lands at the next cycle boundary)",
                );
                self.push_info(said.as_str());
            },
            Some(error) => {
                let said = concat3(
                    "could not steer the running goal (",
                    error.as_str(),
                    ") — kept in the queue",
                );
                self.push_error(said.as_str());
                let ghost waiting = self@.queued;
                self.queued_prompts.insert(0, message);
                assert(self@.queued =~= seq![message@] + waiting);
            },
        }
    }

    /// Takes in what became of steering with the queue: how many messages got
    /// there, and why no more did.
    pub fn finish_queue_steer(&mut self, sent: usize, failure: Option<String>)
        requires
            old(self)@.wf(),
        ensures
            final(self)@ == old(self)@.queue_sent(sent as nat, text::opt_text(failure)),
            final(self)@.wf(),
    {
        self.queued_prompts = drop_sent(&self.queued_prompts, sent);
        assert(self@.queued.len() == self.queued_prompts@.len());
        match failure {
            None => {},
            Some(error) => {
                let mut said = concat3(
                    "could not steer the running goal (",
                    error.as_str(),
                    ") — ",
                );
                said.append(format_decimal(self.queued_prompts.len() as u64).as_str());
                said.append(" kept in the queue");
                self.push_error(said.as_str());
            },
        }
        if sent > 0 {
            let mut said = concat2(
                "steering the running goal with ",
                format_decimal(sent as u64).as_str(),
            );
            if sent == 1 {
                said.append(" queued message");
            } else {
                said.append(" queued messages");
            }
            said.append(" (they land at the next cycle boundary)");
            self.push_info(said.as_str());
        }
    }
}

// ---------------------------------------------------------------------------
// Pasting
// ---------------------------------------------------------------------------

/// A text with every line end made a line feed.
pub open spec fn unix_lines(s: Seq<char>) -> Seq<char>
    decreases s.len(),
{
    if s.len() == 0 {
        s
    } else if s[0] == '\r' && s.len() > 1 && s[1] == '\n' {
        seq!['\n'] + unix_lines(s.skip(2))
    } else if s[0] == '\r' {
        seq!['\n'] + unix_lines(s.skip(1))
    } else {
        seq![s[0]] + unix_lines(s.skip(1))
    }
}

fn normalize_lines(s: &str) -> (r: String)
    ensures
        r@ == unix_lines(s@),
{
    let x = chars_of(s);
    let n: usize = x.len();
    let mut out: Vec<char> = Vec::new();
    let mut i: usize = 0;
    assert(x@.skip(0) =~= x@);
    assert(out@ + unix_lines(x@.skip(0)) =~= unix_lines(s@));
    while i < n
        invariant
            i <= n,
            n == x@.len(),
            x@ == s@,
            out@ + unix_lines(x@.skip(i as int)) == unix_lines(s@),
        decreases n - i,
    {
        let ghost rest = x@.skip(i as int);
        let ghost before = out@;
        assert(rest[0] == x@[i as int]);
        if x[i] == '\r' && n - i > 1 && x[i + 1] == '\n' {
            assert(rest[1] == x@[i + 1]);
            assert(rest.skip(2) =~= x@.skip(i + 2));
            out.push('\n');
            i = i + 2;
            assert(out@ + unix_lines(x@.skip(i as int)) =~= before + unix_lines(rest));
        } else {
            assert(rest.skip(1) =~= x@.skip(i + 1));
            assert(rest.len() > 1 ==> rest[1] == x@[i + 1]);
            if x[i] == '\r' {
                out.push('\n');
            } else {
                out.push(x[i]);
            }
            i = i + 1;
            assert(out@ + unix_lines(x@.skip(i as int)) =~= before + unix_lines(rest));
        }
    }
    assert(x@.skip(i as int) =~= Seq::empty());
    assert(out@ =~= unix_lines(s@));
    string_of(&out)
}

impl AppModel {
    /// An image attached.
    pub open spec fn attached(self, image: Attachment) -> AppModel {
        AppModel { attachments: self.attachments.push(image), ..self }
    }

    /// Pasted text: it is inserted, and a line feed at its end submits.
    pub open spec fn text_pasted(self, pasted: Seq<char>) -> AppModel {
        let s = unix_lines(pasted);
        let ends = s.len() > 0 && s.last() == '\n';
        let insertion = if ends {
            s.drop_last()
        } else {
            s
        };
        let inserted = if insertion.len() > 0 {
            self.typed(self.composer.inserted(insertion))
        } else {
            self
        };
        if ends {
            inserted.submitted()
        } else {
            inserted
        }
    }

    /// A paste that was cleaned, and the image it was, if any.
    pub open spec fn pasted(self, cleaned: Seq<char>, image: Option<Attachment>) -> AppModel {
        if cleaned.len() == 0 {
            self
        } else {
            match image {
                Some(i) => self.attached(i),
                None => self.text_pasted(cleaned),
            }
        }
    }

    /// What the clipboard held.
    pub open spec fn clipboard_read(
        self,
        image: Option<Attachment>,
        status: Seq<char>,
    ) -> AppModel {
        match image {
            Some(i) => self.attached(i).info(
                text::decimal(self.attachments.len() + 1) + " image(s) attached. "@ + status,
            ),
            None => self.info("no image found on the clipboard."@),
        }
    }
}

impl TuiApp {
    fn attach(&mut self, image: Attachment)
        requires
            old(self)@.wf(),
        ensures
            final(self)@ == old(self)@.attached(image),
            final(self)@.wf(),
    {
        self.attachments.push(image);
        assert(self@.attachments =~= old(self)@.attachments.push(image));
    }

    /// Takes in a paste that was cleaned, and the image it was, if any.
    pub fn on_paste(&mut self, cleaned: &str, image: Option<Attachment>)
        requires
            old(self)@.wf(),
        ensures
            final(self)@ == old(self)@.pasted(cleaned@, image),
            final(self)@.wf(),
    {
        if cleaned.unicode_len() == 0 {
            return ;
        }
        match image {
            Some(i) => {
                self.attach(i);
                return ;
            },
            None => {},
        }
        let s = normalize_lines(cleaned);
        let x = chars_of(s.as_str());
        let n: usize = x.len();
        let ends = n > 0 && x[n - 1] == '\n';
        let insertion = if ends {
            sub_string(&x, 0, n - 1)
        } else {
            s.clone()
        };
        assert(ends ==> insertion@ =~= s@.drop_last());
        if insertion.as_str().unicode_len() > 0 {
            self.composer.insert_text(insertion.as_str());
        }
        if ends {
            self.submit();
        }
    }

    /// Takes in what the clipboard held.
    pub fn adopt_clipboard(&mut self, image: Option<Attachment>, status: &str)
        requires
            old(self)@.wf(),
        ensures
            final(self)@ == old(self)@.clipboard_read(image, status@),
            final(self)@.wf(),
    {
        match image {
            Some(i) => {
                self.attach(i);
                let count = format_decimal(self.attachments.len() as u64);
                let said = concat3(count.as_str(), " image(s) attached. ", status);
                self.push_info(said.as_str());
            },
            None => {
                self.push_info("no image found on the clipboard.");
            },
        }
    }
}

// ---------------------------------------------------------------------------
// Laws
// ---------------------------------------------------------------------------

/// While a run is live, enter starts no second one.
pub proof fn law_enter_never_starts_a_second_run(app: AppModel)
    requires
        app.running,
    ensures
        app.submitted().running,
        app.submitted().run_started_at == app.run_started_at,
        app.submitted().run_session == app.run_session,
{
}

/// A queued message stays out of the transcript, and the queue keeps its order.
pub proof fn law_queueing_leaves_no_trace(app: AppModel, prompt: Seq<char>)
    ensures
        app.prompt_queued(prompt).feed == app.feed,
        app.prompt_queued(prompt).effects == app.effects,
        app.queued.is_prefix_of(app.prompt_queued(prompt).queued),
{
}

proof fn lemma_spoken_front(queued: Seq<Seq<char>>)
    requires
        queued.len() > 0,
    ensures
        spoken(queued) == (if text::is_blank(queued[0]) {
            spoken(queued.skip(1))
        } else {
            seq![queued[0]] + spoken(queued.skip(1))
        }),
    decreases queued.len(),
{
    if queued.len() == 1 {
        assert(queued.drop_last() =~= Seq::empty());
        assert(queued.skip(1) =~= Seq::empty());
        assert(spoken(queued) =~= (if text::is_blank(queued[0]) {
            spoken(queued.skip(1))
        } else {
            seq![queued[0]] + spoken(queued.skip(1))
        }));
    } else {
        lemma_spoken_front(queued.drop_last());
        assert(queued.drop_last().skip(1) =~= queued.skip(1).drop_last());
        assert(spoken(queued) =~= (if text::is_blank(queued[0]) {
            spoken(queued.skip(1))
        } else {
            seq![queued[0]] + spoken(queued.skip(1))
        }));
    }
}

/// Steering loses no message: those that got there and those that still wait
/// are the queue, in order.
pub proof fn law_steering_loses_nothing(queued: Seq<Seq<char>>, sent: nat)
    requires
        sent <= spoken(queued).len(),
    ensures
        spoken(queued) == spoken(queued).take(sent as int) + spoken(unsent(queued, sent)),
    decreases queued.len(),
{
    if queued.len() > 0 {
        lemma_spoken_front(queued);
        if text::is_blank(queued[0]) {
            law_steering_loses_nothing(queued.skip(1), sent);
        } else if sent > 0 {
            let rest = spoken(queued.skip(1));
            law_steering_loses_nothing(queued.skip(1), (sent - 1) as nat);
            assert(spoken(queued).take(sent as int) =~= seq![queued[0]] + rest.take(sent - 1));
            assert(spoken(queued) =~= spoken(queued).take(sent as int) + spoken(
                unsent(queued, sent),
            ));
        } else {
            assert(spoken(queued) =~= spoken(queued).take(0) + spoken(queued));
        }
    } else {
        assert(spoken(queued) =~= spoken(queued).take(sent as int) + spoken(unsent(queued, sent)));
    }
}

/// A typed message that could not be sent waits at the head of the queue, and a
/// typed message never touches the queue otherwise.
pub proof fn law_a_typed_message_is_never_lost(
    app: AppModel,
    message: Seq<char>,
    error: Seq<char>,
)
    ensures
        app.typed_sent(message, Some(error)).queued == seq![message] + app.queued,
        app.typed_sent(message, None).queued == app.queued,
{
}

/// What up replaced is put back by down, character for character: from the
/// first line of a draft, one step back and one forward change nothing.
pub proof fn law_down_undoes_up(app: AppModel)
    requires
        app.wf(),
        app.history.browsing is None,
        app.history.entries.len() > 0,
        app.cursor_spot().0 == 0,
    ensures
        app.older_recalled().newer_recalled().composer.text == app.composer.text,
        app.older_recalled().newer_recalled().history == app.history,
{
    history::law_forward_undoes_back(app.history, app.composer.text);
    let up = app.older_recalled();
    let prompt = app.history.recalled_back()->0;
    assert(up.composer.text == prompt);
    layout::law_the_end_stands_on_the_last_line(prompt, up.body());
}

/// A message to a live run is read as it was sent.
pub proof fn law_a_steered_message_reads_back(at: Seq<char>, message: Seq<char>)
    ensures
        json::text_at(message_fields(at, message), "text"@) == Some(message),
        json::text_at(message_fields(at, message), "at"@) == Some(at),
{
    let fields = message_fields(at, message);
    reveal_strlit("at");
    reveal_strlit("text");
    assert("at"@.len() != "text"@.len());
    assert(fields.skip(1)[0] == fields[1]);
    assert(json::value_at(fields.skip(1), "text"@) == Some(FieldModel::Text(message)));
}

/// What enter does with a message while nothing runs and no question is
/// chatted about: it leaves the composer, and what is no command and no skill
/// becomes the goal of a run, with the images that were attached.
pub proof fn law_enter_starts_what_was_typed(app: AppModel)
    requires
        !app.running,
        !app.chats(),
        ({
            let message = text::trimmed(app.composer.text);
            &&& message.len() > 0
            &&& message[0] != '/'
        }),
    ensures
        ({
            let message = text::trimmed(app.composer.text);
            let next = app.submitted();
            &&& next.composer.text.len() == 0
            &&& next.running
            &&& next.effects == app.effects.push(EffectModel::StartRun(message, app.attachments))
            &&& next.history == app.history.recorded(message)
            &&& next.attachments.len() == 0
            &&& next.queued == app.queued
        }),
{
    let message = text::trimmed(app.composer.text);
    text::law_trimming_takes_only_white_space(app.composer.text);
    slash::law_other_texts_are_no_commands(message);
}

/// While a run is live a message that is no command waits its turn: it leaves
/// the composer and goes to the end of the queue.
pub proof fn law_enter_queues_what_was_typed(app: AppModel)
    requires
        app.running,
        !app.chats(),
        ({
            let message = text::trimmed(app.composer.text);
            &&& message.len() > 0
            &&& message[0] != '/'
        }),
    ensures
        ({
            let message = text::trimmed(app.composer.text);
            let next = app.submitted();
            &&& next.composer.text.len() == 0
            &&& next.queued == app.queued.push(message)
            &&& next.history == app.history.recorded(message)
            &&& next.effects == app.effects
            &&& next.attachments == app.attachments
        }),
{
    let message = text::trimmed(app.composer.text);
    text::law_trimming_takes_only_white_space(app.composer.text);
    slash::law_other_texts_are_no_commands(message);
    text::law_blank_is_all_space(message);
    assert(!text::is_space(message[0]));
}

/// A command runs at once while nothing runs; while a run is live only renaming
/// does, and any other command waits in the queue as it was typed.
pub proof fn law_a_live_run_takes_only_renaming(
    app: AppModel,
    message: Seq<char>,
    name: Seq<char>,
    args: Seq<char>,
)
    requires
        !app.chats(),
        slash::parsed_command(message) == Some((name, args)),
        !text::is_blank(message),
    ensures
        !app.running ==> app.message_taken(message) == app.dispatched(name, args),
        app.running && name == "rename"@ ==> app.message_taken(message) == app.dispatched(
            name,
            args,
        ),
        app.running && name != "rename"@ ==> app.message_taken(message).queued == app.queued.push(
            message,
        ) && app.message_taken(message).effects == app.effects,
{
}

/// In a chat about a question a message goes there, as it was typed. An enter
/// with nothing typed and nothing attached does nothing.
pub proof fn law_a_chat_takes_the_message(app: AppModel, message: Seq<char>)
    ensures
        app.chats() && message.len() > 0 ==> app.message_taken(message).effects == app.effects.push(
            EffectModel::WriteChat(message),
        ),
        text::is_blank(app.composer.text) && app.attachments.len() == 0 ==> app.submitted() == app,
        text::is_blank(message) ==> app.prompt_queued(message) == app,
{
}

/// Steering sends what is typed, at once and out of the composer; with nothing
/// typed it sends every queued message that says something, in order; with
/// neither it says so.
pub proof fn law_steering_sends_what_there_is(app: AppModel)
    ensures
        ({
            let message = text::trimmed(app.composer.text);
            let waiting = app.queued.filter(|m: Seq<char>| !text::is_blank(m));
            &&& message.len() > 0 ==> {
                &&& app.steered().effects == app.effects.push(EffectModel::SteerTyped(message))
                &&& app.steered().composer.text.len() == 0
                &&& app.steered().history == app.history.recorded(message)
                &&& app.steered().queued == app.queued
            }
            &&& message.len() == 0 && waiting.len() > 0 ==> app.steered().effects
                == app.effects.push(EffectModel::SteerQueue(waiting)) && app.steered().queued
                == app.queued
            &&& message.len() == 0 && waiting.len() == 0 ==> app.steered() == (AppModel {
                queued: Seq::empty(),
                ..app
            }).info("nothing to steer with — type a message, or queue one with enter first."@)
        }),
{
    lemma_spoken_is_filter(app.queued);
}

proof fn lemma_spoken_is_filter(queued: Seq<Seq<char>>)
    ensures
        spoken(queued) == queued.filter(|m: Seq<char>| !text::is_blank(m)),
    decreases queued.len(),
{
    reveal(Seq::filter);
    if queued.len() > 0 {
        lemma_spoken_is_filter(queued.drop_last());
    } else {
        assert(spoken(queued) =~= queued.filter(|m: Seq<char>| !text::is_blank(m)));
    }
}

/// What became of steering is said: the message that was sent, or how many
/// queued ones were; or why it failed and that nothing was lost.
pub proof fn law_steering_is_told_as_it_went(
    app: AppModel,
    message: Seq<char>,
    error: Seq<char>,
    sent: nat,
)
    ensures
        app.typed_sent(message, None) == app.info(
            "steering the running goal: "@ + message + " (it lands at the next cycle boundary)"@,
        ),
        app.typed_sent(message, Some(error)).feed == app.error(
            "could not steer the running goal ("@ + error + ") — kept in the queue"@,
        ).feed,
        ({
            let left = AppModel { queued: unsent(app.queued, sent), ..app };
            let failed = left.error(
                "could not steer the running goal ("@ + error + ") — "@ + text::decimal(
                    left.queued.len(),
                ) + " kept in the queue"@,
            );
            &&& sent == 0 ==> app.queue_sent(sent, None) == left
            &&& sent == 1 ==> app.queue_sent(sent, None) == left.info(
                "steering the running goal with "@ + text::decimal(1) + " queued message"@
                    + " (they land at the next cycle boundary)"@,
            )
            &&& sent > 1 ==> app.queue_sent(sent, None) == left.info(
                "steering the running goal with "@ + text::decimal(sent) + " queued messages"@
                    + " (they land at the next cycle boundary)"@,
            )
            &&& sent == 0 ==> app.queue_sent(sent, Some(error)) == failed
            &&& sent > 1 ==> app.queue_sent(sent, Some(error)) == failed.info(
                "steering the running goal with "@ + text::decimal(sent) + " queued messages"@
                    + " (they land at the next cycle boundary)"@,
            )
        }),
{
}

/// Every line end of a pasted text becomes one line feed, and nothing else of
/// it changes.
pub proof fn law_line_ends_become_line_feeds(line: Seq<char>, rest: Seq<char>)
    requires
        forall|i: int| 0 <= i < line.len() ==> #[trigger] line[i] != '\r',
    ensures
        unix_lines(line) == line,
        unix_lines(line + seq!['\r', '\n'] + rest) == line + seq!['\n'] + unix_lines(rest),
        rest.len() == 0 || rest[0] != '\n' ==> unix_lines(line + seq!['\r'] + rest) == line + seq![
            '\n',
        ] + unix_lines(rest),
{
    lemma_unix_behind_text(line, Seq::empty());
    assert(line + Seq::<char>::empty() =~= line);
    let crlf = seq!['\r', '\n'] + rest;
    assert(crlf.skip(2) =~= rest);
    lemma_unix_behind_text(line, crlf);
    assert(line + seq!['\r', '\n'] + rest =~= line + crlf);
    assert(line + (seq!['\n'] + unix_lines(rest)) =~= line + seq!['\n'] + unix_lines(rest));
    let cr = seq!['\r'] + rest;
    assert(cr.skip(1) =~= rest);
    lemma_unix_behind_text(line, cr);
    assert(line + seq!['\r'] + rest =~= line + cr);
    if rest.len() > 0 {
        assert(cr[1] == rest[0]);
    }
}

proof fn lemma_unix_behind_text(line: Seq<char>, rest: Seq<char>)
    requires
        forall|i: int| 0 <= i < line.len() ==> #[trigger] line[i] != '\r',
    ensures
        unix_lines(line + rest) == line + unix_lines(rest),
    decreases line.len(),
{
    let s = line + rest;
    if line.len() == 0 {
        assert(s =~= rest);
        assert(line + unix_lines(rest) =~= unix_lines(rest));
    } else {
        assert(s[0] == line[0]);
        assert(s.skip(1) =~= line.skip(1) + rest);
        lemma_unix_behind_text(line.skip(1), rest);
        assert(seq![s[0]] + (line.skip(1) + unix_lines(rest)) =~= line + unix_lines(rest));
    }
}

/// A paste is typed at the cursor, whole; only where it ends in a line feed is
/// it submitted, without that. An image is attached behind the others instead.
pub proof fn law_a_paste_is_typed_whole(app: AppModel, pasted: Seq<char>, image: Attachment)
    requires
        pasted.len() > 0,
        forall|i: int| 0 <= i < pasted.len() ==> #[trigger] pasted[i] != '\r',
    ensures
        pasted.last() != '\n' ==> app.pasted(pasted, None) == (AppModel {
            composer: app.composer.inserted(pasted),
            ..app
        }),
        app.pasted(pasted + seq!['\n'], None) == (AppModel {
            composer: app.composer.inserted(pasted),
            ..app
        }).submitted(),
        app.pasted(pasted, Some(image)) == (AppModel {
            attachments: app.attachments.push(image),
            ..app
        }),
        app.pasted(Seq::empty(), Some(image)) == app,
{
    law_line_ends_become_line_feeds(pasted, Seq::empty());
    let ended = pasted + seq!['\n'];
    law_line_ends_become_line_feeds(ended, Seq::empty());
    assert(ended.drop_last() =~= pasted);
}

/// An image from the clipboard is attached and counted; without one it is said
/// that there is none, and nothing is attached.
pub proof fn law_a_clipboard_image_is_attached(app: AppModel, image: Attachment, status: Seq<char>)
    ensures
        app.clipboard_read(Some(image), status).attachments == app.attachments.push(image),
        app.clipboard_read(Some(image), status).effects == app.effects.push(
            EffectModel::Persist(
                EntryModel::Info {
                    at: app.stamp,
                    text: text::decimal(app.attachments.len() + 1) + " image(s) attached. "@
                        + status,
                },
            ),
        ),
        app.clipboard_read(None, status) == app.info("no image found on the clipboard."@),
{
}

/// Up goes to the line above where there is one, and else recalls the prompt
/// before, with the cursor at its end. Down goes to the line below where there
/// is one, and else recalls the prompt behind.
pub proof fn law_arrows_walk_the_lines_then_the_history(app: AppModel)
    ensures
        app.cursor_spot().0 > 0 ==> app.older_recalled() == app.on_line(app.cursor_spot().0 - 1),
        app.cursor_spot().0 < app.line_count() - 1 ==> app.newer_recalled() == app.on_line(
            app.cursor_spot().0 + 1,
        ),
        app.cursor_spot().0 <= 0 ==> {
            &&& app.older_recalled().history == app.history.stepped_back(app.composer.text)
            &&& app.history.recalled_back() matches Some(p) ==> app.older_recalled().composer.text
                == p && app.older_recalled().composer.cursor == p.len()
            &&& app.history.recalled_back() is None ==> app.older_recalled().composer
                == app.composer
        },
        app.cursor_spot().0 >= app.line_count() - 1 ==> {
            &&& app.newer_recalled().history == app.history.stepped_forward()
            &&& app.history.recalled_forward() matches Some(p)
                ==> app.newer_recalled().composer.text == p && app.newer_recalled().composer.cursor
                == p.len()
            &&& app.history.recalled_forward() is None ==> app.newer_recalled().composer
                == app.composer
        },
{
}

/// A message that begins with a slash and is no command is the name of a skill
/// where one has it, and else a goal like any other.
pub proof fn law_a_slashed_message_is_a_skill_or_a_goal(app: AppModel, message: Seq<char>)
    requires
        !app.running,
        !app.chats(),
        message.len() > 0,
        slash::parsed_command(message) is None,
    ensures
        message[0] == '/' && app.knows_skill(message.skip(1)) ==> app.message_taken(message)
            == app.skill_named(message.skip(1)),
        message[0] != '/' || !app.knows_skill(message.skip(1)) ==> app.message_taken(message)
            == app.goal_submitted(message),
{
}

/// The cursor goes to another line in its own column, or to the last column of
/// a line that is shorter.
pub proof fn law_the_cursor_keeps_its_column(app: AppModel, line: int)
    requires
        0 <= line < app.line_count(),
    ensures
        ({
            let lines = layout::line_ranges(app.composer.text, app.body(), 0);
            let column = app.cursor_spot().1;
            let to = layout::cursor_at(app.composer.text, app.body(), line, column);
            &&& app.on_line(line).composer == app.composer.moved(to)
            &&& column < layout::last_column(lines, line) ==> to == lines[line].0 + column
            &&& column >= layout::last_column(lines, line) ==> to == lines[line].0
                + layout::last_column(lines, line)
        }),
{
}

} // verus!
