//! The name of the session, and the switch from one session to another.

use vstd::prelude::*;
use crate::text;
use crate::text::{concat2, concat3, trim};
use crate::transcript;
use crate::transcript::{EntryModel, TranscriptEntry};
use crate::tui::app::effects::{Effect, EffectModel};
use crate::tui::app::overlay::SessionSummary;
use crate::tui::app::state::{AppModel, SessionPaths, TuiApp};
use crate::tui::app::titles;

verus! {

/// What the operator reads where a generated name did not work out.
pub const NO_NAME: &'static str = "Could not generate a session name; keeping the current one.";

/// What the operator reads where a chosen name could not be saved.
pub const NAME_NOT_SAVED: &'static str =
    "Could not save the new session name; keeping the current one.";

/// What the operator reads where a survey goes with its session.
pub const SURVEY_LEFT: &'static str =
    "survey dismissed by session switch — answer that run with `drip --answer`";

impl AppModel {
    /// `/rename`: the chosen name is to be saved, or one is to be generated.
    /// Either way a title that is still being generated comes too late.
    pub open spec fn rename_asked(self, args: Seq<char>) -> AppModel {
        let claimed = AppModel { titles: self.titles.claimed(), ..self };
        let manual = text::trimmed(args);
        if manual.len() == 0 {
            claimed.with(EffectModel::GenerateName)
        } else {
            AppModel { titles: claimed.titles.naming(), ..claimed }.with(
                EffectModel::SaveName(manual, true),
            )
        }
    }

    /// No model can name the session.
    pub open spec fn rename_refused(self) -> AppModel {
        self.error("/rename needs a configured inference profile (see /model)."@)
    }

    /// A model was asked for a name.
    pub open spec fn naming_begun(self) -> AppModel {
        AppModel { titles: self.titles.naming(), ..self }.info(
            "Renaming this session from its transcript…"@,
        )
    }

    /// A generated name arrives. One that was asked for before the session, or
    /// its name, changed is dropped.
    pub open spec fn name_generated(self, epoch: u64, name: Option<Seq<char>>) -> AppModel {
        if epoch != self.titles.rename_epoch {
            self
        } else {
            match name {
                Some(n) => self.with(EffectModel::SaveName(n, false)),
                None => self.error(NO_NAME@),
            }
        }
    }

    /// What became of saving a name: it shows only where it is kept.
    pub open spec fn name_kept(self, name: Seq<char>, manual: bool, saved: bool) -> AppModel {
        if !saved {
            self.error(
                if manual {
                    NAME_NOT_SAVED@
                } else {
                    NO_NAME@
                },
            )
        } else {
            AppModel {
                titles: self.titles.named(name, self.is_tty, self.now),
                ..self
            }.shown(titles::renamed(self.titles.pane, name, self.is_tty, self.now).1).info(
                "Session renamed to \""@ + name + "\"."@,
            )
        }
    }

    /// A title arrives. One that was asked for before the session, or its
    /// name, changed is dropped.
    pub open spec fn title_arrived(self, epoch: u64, label: Option<Seq<char>>) -> AppModel {
        AppModel { titles: self.titles.titled(epoch, label, self.now), ..self }.shown(
            titles::title_reply(
                self.titles.pane,
                self.titles.title_epoch,
                epoch,
                label,
                self.now,
            ).1,
        )
    }

    /// Another session: its transcript is replayed below what stands, and
    /// nothing of the old one is carried over but the prompts.
    pub open spec fn session_switched(
        self,
        record: SessionSummary,
        paths: SessionPaths,
        name: Option<Seq<char>>,
        entries: Seq<EntryModel>,
    ) -> AppModel {
        let left = AppModel {
            feed: self.feed.flushed(self.now, self.running, self.cols as nat),
            ..self
        }.survey_dropped(SURVEY_LEFT@);
        let escapes = left.titles.switched_escapes(name, left.is_tty, left.now);
        let there = AppModel {
            history: left.history.rested(),
            paths,
            session: record,
            titles: left.titles.switched(name, left.is_tty, left.now),
            ..left
        }.shown(escapes.0).shown(escapes.1);
        AppModel { feed: there.feed.replayed(entries, there.cols as nat), ..there }
    }
}

impl TuiApp {
    /// `/rename`.
    pub fn rename(&mut self, args: &str)
        requires
            old(self)@.wf(),
        ensures
            final(self)@ == old(self)@.rename_asked(args@),
            final(self)@.wf(),
    {
        let manual = trim(args);
        self.titles.claim_title();
        if manual.as_str().unicode_len() == 0 {
            self.emit(Effect::GenerateName);
        } else {
            let _ = self.titles.begin_naming();
            self.emit(Effect::SaveName { chosen: manual, manual: true });
        }
    }

    /// No model can name the session.
    pub fn refuse_rename(&mut self)
        requires
            old(self)@.wf(),
        ensures
            final(self)@ == old(self)@.rename_refused(),
            final(self)@.wf(),
    {
        self.push_error("/rename needs a configured inference profile (see /model).");
    }

    /// A model is asked for a name. The reply is to carry the number returned.
    pub fn begin_rename(&mut self) -> (r: u64)
        requires
            old(self)@.wf(),
        ensures
            final(self)@ == old(self)@.naming_begun(),
            r == final(self)@.titles.rename_epoch,
            final(self)@.wf(),
    {
        let epoch: u64 = self.titles.begin_naming();
        self.push_info("Renaming this session from its transcript…");
        epoch
    }

    /// Takes in a generated name.
    pub fn apply_rename_result(&mut self, epoch: u64, name: Option<String>)
        requires
            old(self)@.wf(),
        ensures
            final(self)@ == old(self)@.name_generated(epoch, text::opt_text(name)),
            final(self)@.wf(),
    {
        if epoch != self.titles.rename_epoch {
            return ;
        }
        match name {
            Some(n) => {
                self.emit(Effect::SaveName { chosen: n, manual: false });
            },
            None => {
                self.push_error(NO_NAME);
            },
        }
    }

    /// Takes in what became of saving a name.
    pub fn adopt_name(&mut self, name: &str, manual: bool, saved: bool)
        requires
            old(self)@.wf(),
        ensures
            final(self)@ == old(self)@.name_kept(name@, manual, saved),
            final(self)@.wf(),
    {
        if !saved {
            if manual {
                self.push_error(NAME_NOT_SAVED);
            } else {
                self.push_error(NO_NAME);
            }
            return ;
        }
        let escape = self.titles.show_name(name, self.is_tty, self.now);
        self.show_title(escape);
        let said = concat3("Session renamed to \"", name, "\".");
        self.push_info(said.as_str());
    }

    /// Takes in a generated title.
    pub fn adopt_title(&mut self, epoch: u64, label: Option<String>)
        requires
            old(self)@.wf(),
        ensures
            final(self)@ == old(self)@.title_arrived(epoch, text::opt_text(label)),
            final(self)@.wf(),
    {
        let escape = self.titles.adopt_title(epoch, label, self.now);
        self.show_title(escape);
    }

    /// Switches to another session.
    pub fn switch_session(
        &mut self,
        record: SessionSummary,
        paths: SessionPaths,
        name: Option<String>,
        entries: Vec<TranscriptEntry>,
    )
        requires
            old(self)@.wf(),
        ensures
            final(self)@ == old(self)@.session_switched(
                record,
                paths,
                text::opt_text(name),
                transcript::entry_models(entries@),
            ),
            final(self)@.wf(),
    {
        self.feed.flush_pending_cells(self.now, self.running, self.cols);
        self.drop_survey(SURVEY_LEFT);
        self.prompt_history.reset();
        self.paths = paths;
        self.session = record;
        let (neutral, named) = self.titles.switch_session(name, self.is_tty, self.now);
        self.show_title(neutral);
        self.show_title(named);
        self.feed.rebuild_compact(entries, self.cols);
    }

    /// Starts in a session that was just made.
    pub fn start_session(
        &mut self,
        record: SessionSummary,
        paths: SessionPaths,
        name: Option<String>,
        entries: Vec<TranscriptEntry>,
    )
        requires
            old(self)@.wf(),
        ensures
            final(self)@ == old(self)@.session_switched(
                record,
                paths,
                text::opt_text(name),
                transcript::entry_models(entries@),
            ).info("started session "@ + record.id@),
            final(self)@.wf(),
    {
        let said = concat2("started session ", record.id.as_str());
        self.switch_session(record, paths, name, entries);
        self.push_info(said.as_str());
    }

    /// A reference named no session.
    pub fn miss_session(&mut self, reference: &str)
        requires
            old(self)@.wf(),
        ensures
            final(self)@ == old(self)@.error(
                "No session found matching \""@ + reference@ + "\"."@,
            ),
            final(self)@.wf(),
    {
        let said = concat3("No session found matching \"", reference, "\".");
        self.push_error(said.as_str());
    }
}

// ---------------------------------------------------------------------------
// Laws
// ---------------------------------------------------------------------------

/// A name that was asked for before `/rename <name>` or before a session switch
/// never lands.
pub proof fn law_a_late_name_never_lands(
    app: AppModel,
    args: Seq<char>,
    record: SessionSummary,
    paths: SessionPaths,
    name: Option<Seq<char>>,
    entries: Seq<EntryModel>,
    reply: Option<Seq<char>>,
)
    ensures
        text::trimmed(args).len() > 0 ==> app.rename_asked(args).name_generated(
            app.titles.rename_epoch,
            reply,
        ) == app.rename_asked(args),
        app.session_switched(record, paths, name, entries).name_generated(
            app.titles.rename_epoch,
            reply,
        ) == app.session_switched(record, paths, name, entries),
{
}

/// A title that was asked for before a rename or a session switch never lands.
pub proof fn law_a_late_title_never_lands(
    app: AppModel,
    args: Seq<char>,
    record: SessionSummary,
    paths: SessionPaths,
    name: Option<Seq<char>>,
    entries: Seq<EntryModel>,
    label: Option<Seq<char>>,
)
    ensures
        app.rename_asked(args).title_arrived(app.titles.title_epoch, label) == app.rename_asked(
            args,
        ),
        app.session_switched(record, paths, name, entries).title_arrived(
            app.titles.title_epoch,
            label,
        ) == app.session_switched(record, paths, name, entries),
{
    let asked = app.rename_asked(args);
    assert(asked.title_arrived(app.titles.title_epoch, label) =~= asked);
    let there = app.session_switched(record, paths, name, entries);
    assert(there.title_arrived(app.titles.title_epoch, label) =~= there);
}

/// A rename never starts a run and never touches what is typed.
pub proof fn law_a_rename_leaves_the_run_alone(
    app: AppModel,
    args: Seq<char>,
    name: Seq<char>,
    manual: bool,
    saved: bool,
)
    ensures
        app.rename_asked(args).running == app.running,
        app.rename_asked(args).composer == app.composer,
        app.rename_asked(args).queued == app.queued,
        app.name_kept(name, manual, saved).running == app.running,
        app.name_kept(name, manual, saved).composer == app.composer,
        app.name_kept(name, manual, saved).queued == app.queued,
        !saved ==> app.name_kept(name, manual, saved).titles == app.titles,
{
}

/// After a switch nothing of the old session waits or blinks: the entries are
/// those of the new one, no survey is open, and browsing the prompts starts
/// over; the prompts themselves stay.
pub proof fn law_a_switch_starts_clean(
    app: AppModel,
    record: SessionSummary,
    paths: SessionPaths,
    name: Option<Seq<char>>,
    entries: Seq<EntryModel>,
)
    ensures
        ({
            let there = app.session_switched(record, paths, name, entries);
            &&& there.feed.cells == entries
            &&& there.feed.pending.len() == 0
            &&& there.survey is None
            &&& there.history.browsing is None
            &&& there.history.draft is None
            &&& there.history.entries == app.history.entries
            &&& there.session == record
            &&& there.titles.session_name == name
            &&& !there.titles.requested
        }),
{
}

/// A name that was chosen is to be saved as it was typed, without white space
/// around it; without one a name is to be generated.
pub proof fn law_a_chosen_name_is_saved_as_typed(app: AppModel, args: Seq<char>)
    ensures
        text::trimmed(args).len() > 0 ==> app.rename_asked(args).effects == app.effects.push(
            EffectModel::SaveName(text::trimmed(args), true),
        ),
        text::trimmed(args).len() == 0 ==> app.rename_asked(args).effects == app.effects.push(
            EffectModel::GenerateName,
        ),
        app.rename_refused() == app.error(
            "/rename needs a configured inference profile (see /model)."@,
        ),
{
}

/// A generated name that is still wanted is to be saved as it is; where none
/// came, it is said that the old one stays.
pub proof fn law_a_generated_name_is_saved(app: AppModel, name: Seq<char>)
    ensures
        app.name_generated(app.titles.rename_epoch, Some(name)).effects == app.effects.push(
            EffectModel::SaveName(name, false),
        ),
        app.name_generated(app.titles.rename_epoch, None) == app.error(
            "Could not generate a session name; keeping the current one."@,
        ),
{
}

/// A name that was kept is the session's name from then on, and is told; one
/// that was not is told as well, and changes nothing.
pub proof fn law_a_kept_name_is_the_sessions_name(app: AppModel, name: Seq<char>, manual: bool)
    ensures
        app.name_kept(name, manual, true).titles == app.titles.named(name, app.is_tty, app.now),
        app.name_kept(name, manual, true).effects.last() == EffectModel::Persist(
            EntryModel::Info { at: app.stamp, text: "Session renamed to \""@ + name + "\"."@ },
        ),
        app.name_kept(name, true, false) == app.error(
            "Could not save the new session name; keeping the current one."@,
        ),
        app.name_kept(name, false, false) == app.error(
            "Could not generate a session name; keeping the current one."@,
        ),
{
}

/// A switch goes where it was asked to: to this record, with its paths, its
/// name and its entries. What is typed and what is attached stays.
pub proof fn law_a_switch_goes_where_it_was_asked_to(
    app: AppModel,
    record: SessionSummary,
    paths: SessionPaths,
    name: Option<Seq<char>>,
    entries: Seq<EntryModel>,
)
    ensures
        ({
            let there = app.session_switched(record, paths, name, entries);
            &&& there.session == record
            &&& there.paths == paths
            &&& there.composer == app.composer
            &&& there.attachments == app.attachments
            &&& there.queued == app.queued
            &&& there.active == app.active
            &&& there.running == app.running
            &&& there.run_session == app.run_session
        }),
{
}

/// A model that was asked for a name is said to be at it, and an older name
/// that is still out is no longer wanted.
pub proof fn law_naming_is_told(app: AppModel)
    ensures
        app.naming_begun().effects == app.effects.push(
            EffectModel::Persist(
                EntryModel::Info {
                    at: app.stamp,
                    text: "Renaming this session from its transcript…"@,
                },
            ),
        ),
        app.naming_begun().titles.rename_epoch != app.titles.rename_epoch,
        app.naming_begun().titles.session_name == app.titles.session_name,
        app.naming_begun().composer == app.composer,
{
}

/// A survey that goes with its session is said to.
pub proof fn law_a_survey_that_is_left_is_told(app: AppModel)
    requires
        app.survey is Some,
    ensures
        app.survey_dropped(SURVEY_LEFT@).effects.last() == EffectModel::Persist(
            EntryModel::Info {
                at: app.stamp,
                text: "survey dismissed by session switch — answer that run with `drip --answer`"@,
            },
        ),
{
}

} // verus!
