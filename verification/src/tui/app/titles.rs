//! Titles and names: the pane title of a session, the one-shot request for a
//! generated title, and renames. Replies carry an epoch; a reply of an older
//! epoch is stale and changes nothing.

use vstd::prelude::*;
use crate::text;
use crate::text::{same, trim};
use crate::tui::app::activity;
use crate::tui::app::activity::later;
use crate::tui::app::composer;
use crate::tui::app::composer::count_on;
use crate::tui::pane_title;
use crate::tui::pane_title::{PaneTitle, TitleState, FALLBACK_LABEL, SPINNER_INTERVAL_MS};

verus! {

// ---------------------------------------------------------------------------
// Settings
// ---------------------------------------------------------------------------

/// An insertion-ordered map, carried through as it is.
#[verifier::external_type_specification]
#[verifier::external_body]
#[verifier::reject_recursive_types(K)]
#[verifier::reject_recursive_types(V)]
#[verifier::reject_recursive_types(S)]
pub struct ExIndexMap<K, V, S>(indexmap::IndexMap<K, V, S>);

/// The values of settings by their ids.
pub uninterp spec fn setting_values(
    settings: indexmap::IndexMap<String, String>,
) -> Map<Seq<char>, Seq<char>>;

/// `IndexMap::get` on settings, the value copied: the value that the id maps
/// to, where it maps to one.
#[verifier::external_body]
fn setting_value(settings: &indexmap::IndexMap<String, String>, id: &str) -> (r: Option<String>)
    ensures
        text::opt_text(r) == (if setting_values(*settings).dom().contains(id@) {
            Some(setting_values(*settings)[id@])
        } else {
            None
        }),
{
    settings.get(id).cloned()
}

/// The setting that turns the pane title off.
pub const TERMINAL_TITLE_ENABLED_SETTING_ID: &'static str = "runtime.terminal_title_enabled";

/// Whether a setting leaves the pane title on: anything but `false`, and no
/// setting at all.
pub open spec fn leaves_title_on(value: Option<Seq<char>>) -> bool {
    match value {
        Some(v) => text::trimmed(v) != "false"@,
        None => true,
    }
}

/// Whether a setting leaves the pane title on.
pub fn title_setting_is_on(value: Option<String>) -> (r: bool)
    ensures
        r == leaves_title_on(text::opt_text(value)),
{
    match value {
        Some(v) => {
            let t = trim(v.as_str());
            !same(t.as_str(), "false")
        },
        None => true,
    }
}

/// Whether the settings leave the pane title on.
pub open spec fn title_enabled(values: Map<Seq<char>, Seq<char>>) -> bool {
    leaves_title_on(
        if values.dom().contains(TERMINAL_TITLE_ENABLED_SETTING_ID@) {
            Some(values[TERMINAL_TITLE_ENABLED_SETTING_ID@])
        } else {
            None
        },
    )
}

pub fn terminal_title_enabled(settings: &indexmap::IndexMap<String, String>) -> (r: bool)
    ensures
        r == title_enabled(setting_values(*settings)),
{
    title_setting_is_on(setting_value(settings, TERMINAL_TITLE_ENABLED_SETTING_ID))
}

/// Whether a generated title is requested: on a terminal, where it is enabled,
/// and once for each session.
pub fn should_request_title(
    is_tty: bool,
    settings: &indexmap::IndexMap<String, String>,
    requested: bool,
) -> (r: bool)
    ensures
        r == (is_tty && title_enabled(setting_values(*settings)) && !requested),
{
    is_tty && terminal_title_enabled(settings) && !requested
}

/// Whether the next goal requests a generated title: never where the operator
/// named the session.
pub fn should_request_auto_title(
    is_tty: bool,
    settings: &indexmap::IndexMap<String, String>,
    requested: bool,
    persisted_name: Option<&str>,
) -> (r: bool)
    ensures
        r == (persisted_name is None && is_tty && title_enabled(setting_values(*settings))
            && !requested),
{
    persisted_name.is_none() && should_request_title(is_tty, settings, requested)
}

// ---------------------------------------------------------------------------
// Title transitions
// ---------------------------------------------------------------------------

/// A title with another label.
pub open spec fn labelled(t: TitleState, raw: Seq<char>) -> TitleState {
    TitleState { label: pane_title::title_label(raw), ..t }
}

/// A title made from a goal.
pub open spec fn fresh_title(goal: Seq<char>) -> TitleState {
    TitleState {
        label: pane_title::title_label(goal),
        busy: false,
        busy_since: None,
        waiting: false,
        last_emitted: None,
        last_emit_at: None,
    }
}

/// A title after it was turned busy or idle, and the escape that shows it.
pub open spec fn turned(
    t: TitleState,
    busy: bool,
    now: u64,
) -> (TitleState, Option<Seq<char>>) {
    if t.busy == busy {
        (t, None)
    } else {
        let next = TitleState {
            busy,
            busy_since: if busy {
                Some(now)
            } else {
                None
            },
            waiting: t.waiting && busy,
            ..t
        };
        (next.updated(now), next.escape(now))
    }
}

/// A title after it was marked as waiting or not, and the escape that shows
/// it.
pub open spec fn held(t: TitleState, waiting: bool, now: u64) -> (TitleState, Option<Seq<char>>) {
    if t.waiting == waiting {
        (t, None)
    } else {
        let next = TitleState { waiting, ..t };
        (next.updated(now), next.escape(now))
    }
}

/// A title after a spinner tick, and the escape that shows it.
pub open spec fn ticked(t: TitleState, now: u64) -> (TitleState, Option<Seq<char>>) {
    if !t.busy || t.throttled(now) {
        (t, None)
    } else {
        (t.updated(now), t.escape(now))
    }
}

/// What a title is, where there is one.
pub open spec fn pane_model(p: Option<PaneTitle>) -> Option<TitleState> {
    match p {
        Some(t) => Some(t@),
        None => None,
    }
}

/// The title and the escape after a name was chosen: an existing title takes
/// it, and on a terminal one comes into being.
pub open spec fn renamed(
    pane: Option<TitleState>,
    name: Seq<char>,
    is_tty: bool,
    now: u64,
) -> (Option<TitleState>, Option<Seq<char>>) {
    match pane {
        Some(t) => {
            let next = labelled(t, name);
            (Some(next.updated(now)), next.escape(now))
        },
        None => if is_tty {
            let next = labelled(fresh_title(name), name);
            (Some(next.updated(now)), next.escape(now))
        } else {
            (None, None)
        },
    }
}

/// Applies a chosen name to the pane title. Without a terminal none comes into
/// being. Returns the escape to write.
pub fn apply_rename_label(
    pane_title: &mut Option<PaneTitle>,
    name: &str,
    is_tty: bool,
    now: u64,
) -> (r: Option<String>)
    ensures
        (pane_model(*final(pane_title)), text::opt_text(r)) == renamed(
            pane_model(*old(pane_title)),
            name@,
            is_tty,
            now,
        ),
{
    match pane_title.take() {
        Some(mut title) => {
            let escape = title.set_label(name, now);
            *pane_title = Some(title);
            escape
        },
        None => {
            if is_tty {
                let mut title = PaneTitle::new(name);
                let escape = title.set_label(name, now);
                *pane_title = Some(title);
                escape
            } else {
                None
            }
        },
    }
}

/// Whether a spinner tick that was consumed is followed by another: only while
/// the title is busy.
pub fn should_rearm_title_tick(title: Option<&PaneTitle>) -> (r: bool)
    ensures
        r == (match title {
            Some(t) => t@.busy,
            None => false,
        }),
{
    match title {
        Some(t) => t.is_busy(),
        None => false,
    }
}

/// The title and the escape after a reply with a generated label: one of
/// another epoch, or without a label, changes nothing.
pub open spec fn title_reply(
    pane: Option<TitleState>,
    current_epoch: u64,
    reply_epoch: u64,
    label: Option<Seq<char>>,
    now: u64,
) -> (Option<TitleState>, Option<Seq<char>>) {
    match (pane, label) {
        (Some(t), Some(raw)) => if reply_epoch == current_epoch {
            let next = labelled(t, raw);
            (Some(next.updated(now)), next.escape(now))
        } else {
            (pane, None)
        },
        _ => (pane, None),
    }
}

/// Applies a reply with a generated label. Returns the escape to write.
pub fn apply_title_result(
    title: &mut Option<PaneTitle>,
    current_epoch: u64,
    msg_epoch: u64,
    label: Option<String>,
    now: u64,
) -> (r: Option<String>)
    ensures
        (pane_model(*final(title)), text::opt_text(r)) == title_reply(
            pane_model(*old(title)),
            current_epoch,
            msg_epoch,
            text::opt_text(label),
            now,
        ),
{
    if msg_epoch != current_epoch {
        return None;
    }
    match title.take() {
        None => None,
        Some(mut t) => {
            let escape = match label {
                Some(raw) => t.set_label(raw.as_str(), now),
                None => None,
            };
            *title = Some(t);
            escape
        },
    }
}

// ---------------------------------------------------------------------------
// The titles of a session
// ---------------------------------------------------------------------------

/// The pane title, the session's name, and the epochs of requests.
pub struct Titles {
    pub pane_title: Option<PaneTitle>,
    /// The name that the operator chose, where they did.
    pub session_name: Option<String>,
    /// Whether this session already requested a generated title.
    pub title_requested: bool,
    pub title_epoch: u64,
    pub rename_epoch: u64,
    pub title_next_tick: Option<u64>,
}

/// What titles hold.
#[verifier::ext_equal]
pub ghost struct TitlesModel {
    pub pane: Option<TitleState>,
    pub session_name: Option<Seq<char>>,
    pub requested: bool,
    pub title_epoch: u64,
    pub rename_epoch: u64,
    pub next_tick: Option<u64>,
}

impl TitlesModel {
    /// Nothing shown and nothing requested yet.
    pub open spec fn opened(session_name: Option<Seq<char>>) -> TitlesModel {
        TitlesModel {
            pane: None,
            session_name,
            requested: false,
            title_epoch: 0,
            rename_epoch: 0,
            next_tick: None,
        }
    }

    /// The title that a run starts from: the one that shows, else a fresh one
    /// that bears the chosen name or the goal.
    pub open spec fn run_title(
        self,
        goal: Seq<char>,
        persisted: Option<Seq<char>>,
        now: u64,
    ) -> TitleState {
        match self.pane {
            Some(t) => t,
            None => match persisted {
                Some(name) => labelled(fresh_title(goal), name).updated(now),
                None => fresh_title(goal),
            },
        }
    }

    /// The titles when a run starts: on a terminal the title turns busy.
    pub open spec fn spinning(
        self,
        goal: Seq<char>,
        shows: bool,
        persisted: Option<Seq<char>>,
        now: u64,
    ) -> TitlesModel {
        if shows {
            let (next, escape) = turned(self.run_title(goal, persisted, now), true, now);
            TitlesModel {
                pane: Some(next),
                next_tick: if escape is Some {
                    Some(activity::later_time(now, SPINNER_INTERVAL_MS))
                } else {
                    self.next_tick
                },
                ..self
            }
        } else {
            self
        }
    }

    /// The escape when a run starts.
    pub open spec fn spinning_escape(
        self,
        goal: Seq<char>,
        shows: bool,
        persisted: Option<Seq<char>>,
        now: u64,
    ) -> Option<Seq<char>> {
        if shows {
            turned(self.run_title(goal, persisted, now), true, now).1
        } else {
            None
        }
    }

    /// Whether a run that starts requests a generated title.
    pub open spec fn requests_title(self, shows: bool, persisted: Option<Seq<char>>) -> bool {
        persisted is None && shows && !self.requested
    }

    /// The titles when a run ends: idle, and no further tick.
    pub open spec fn rested(self, now: u64) -> TitlesModel {
        TitlesModel {
            pane: match self.pane {
                Some(t) => Some(turned(t, false, now).0),
                None => None,
            },
            next_tick: None,
            ..self
        }
    }

    /// The escape when a run ends.
    pub open spec fn rested_escape(self, now: u64) -> Option<Seq<char>> {
        match self.pane {
            Some(t) => turned(t, false, now).1,
            None => None,
        }
    }

    /// The titles while the operator is asked, or no longer.
    pub open spec fn waiting(self, waiting: bool, now: u64) -> TitlesModel {
        TitlesModel {
            pane: match self.pane {
                Some(t) => Some(held(t, waiting, now).0),
                None => None,
            },
            ..self
        }
    }

    /// The escape while the operator is asked, or no longer.
    pub open spec fn waiting_escape(self, waiting: bool, now: u64) -> Option<Seq<char>> {
        match self.pane {
            Some(t) => held(t, waiting, now).1,
            None => None,
        }
    }

    /// The titles after a spinner tick: the next one is armed only while busy.
    pub open spec fn after_tick(self, now: u64) -> TitlesModel {
        match self.next_tick {
            Some(at) => if now >= at {
                let pane = match self.pane {
                    Some(t) => Some(ticked(t, now).0),
                    None => None,
                };
                TitlesModel {
                    pane,
                    next_tick: match pane {
                        Some(t) => if t.busy {
                            Some(activity::later_time(now, SPINNER_INTERVAL_MS))
                        } else {
                            None
                        },
                        None => None,
                    },
                    ..self
                }
            } else {
                self
            },
            None => self,
        }
    }

    /// The escape of a spinner tick.
    pub open spec fn tick_escape(self, now: u64) -> Option<Seq<char>> {
        match (self.next_tick, self.pane) {
            (Some(at), Some(t)) => if now >= at {
                ticked(t, now).1
            } else {
                None
            },
            _ => None,
        }
    }

    /// The titles after another session was opened: both epochs move on, so no
    /// reply for the old session lands, and the label starts over.
    pub open spec fn switched(
        self,
        session_name: Option<Seq<char>>,
        is_tty: bool,
        now: u64,
    ) -> TitlesModel {
        let neutral = match self.pane {
            Some(t) => Some(labelled(t, FALLBACK_LABEL@).updated(now)),
            None => None,
        };
        TitlesModel {
            pane: match session_name {
                Some(name) => renamed(neutral, name, is_tty, now).0,
                None => neutral,
            },
            session_name,
            requested: false,
            title_epoch: composer::next_number(self.title_epoch),
            rename_epoch: composer::next_number(self.rename_epoch),
            next_tick: None,
        }
    }

    /// The escapes after another session was opened.
    pub open spec fn switched_escapes(
        self,
        session_name: Option<Seq<char>>,
        is_tty: bool,
        now: u64,
    ) -> (Option<Seq<char>>, Option<Seq<char>>) {
        let neutral = match self.pane {
            Some(t) => Some(labelled(t, FALLBACK_LABEL@).updated(now)),
            None => None,
        };
        (
            match self.pane {
                Some(t) => labelled(t, FALLBACK_LABEL@).escape(now),
                None => None,
            },
            match session_name {
                Some(name) => renamed(neutral, name, is_tty, now).1,
                None => None,
            },
        )
    }

    /// A rename is under way: a generated title that is still out is stale.
    pub open spec fn claimed(self) -> TitlesModel {
        TitlesModel { title_epoch: composer::next_number(self.title_epoch), ..self }
    }

    /// A name is being generated: an older one that is still out is stale.
    pub open spec fn naming(self) -> TitlesModel {
        TitlesModel { rename_epoch: composer::next_number(self.rename_epoch), ..self }
    }

    /// A chosen name that was saved, shown.
    pub open spec fn named(self, name: Seq<char>, is_tty: bool, now: u64) -> TitlesModel {
        TitlesModel {
            pane: renamed(self.pane, name, is_tty, now).0,
            session_name: Some(name),
            ..self
        }
    }

    /// A reply with a generated title.
    pub open spec fn titled(
        self,
        reply_epoch: u64,
        label: Option<Seq<char>>,
        now: u64,
    ) -> TitlesModel {
        TitlesModel {
            pane: title_reply(self.pane, self.title_epoch, reply_epoch, label, now).0,
            ..self
        }
    }
}

impl View for Titles {
    type V = TitlesModel;

    open spec fn view(&self) -> TitlesModel {
        TitlesModel {
            pane: pane_model(self.pane_title),
            session_name: text::opt_text(self.session_name),
            requested: self.title_requested,
            title_epoch: self.title_epoch,
            rename_epoch: self.rename_epoch,
            next_tick: self.title_next_tick,
        }
    }
}

/// A text behind an optional reference.
pub open spec fn ref_text(o: Option<&str>) -> Option<Seq<char>> {
    match o {
        Some(s) => Some(s@),
        None => None,
    }
}

impl Titles {
    pub fn new(session_name: Option<String>) -> (r: Self)
        ensures
            r@ == TitlesModel::opened(text::opt_text(session_name)),
    {
        Titles {
            pane_title: None,
            session_name,
            title_requested: false,
            title_epoch: 0,
            rename_epoch: 0,
            title_next_tick: None,
        }
    }

    /// Starts the title of a run. `shows` says whether a terminal shows titles
    /// and they are enabled; every run spins there, but only the first one
    /// requests a generated title, and none where the session has a name.
    /// Returns the escape to write and the epoch of the request, where one is
    /// made.
    pub fn begin_title_with(
        &mut self,
        goal: &str,
        shows: bool,
        persisted_name: Option<&str>,
        now: u64,
    ) -> (r: (Option<String>, Option<u64>))
        ensures
            ({
                let persisted = ref_text(persisted_name);
                let asks = old(self)@.requests_title(shows, persisted);
                &&& final(self)@ == (TitlesModel {
                    requested: old(self)@.requested || asks,
                    ..old(self)@.spinning(goal@, shows, persisted, now)
                })
                &&& text::opt_text(r.0) == old(self)@.spinning_escape(goal@, shows, persisted, now)
                &&& r.1 == (if asks {
                    Some(old(self)@.title_epoch)
                } else {
                    None
                })
            }),
    {
        let mut escape: Option<String> = None;
        if shows {
            let mut title = match self.pane_title.take() {
                Some(title) => title,
                None => {
                    let mut fresh = PaneTitle::new(goal);
                    match persisted_name {
                        Some(name) => {
                            let _ = fresh.set_label(name, now);
                        },
                        None => {},
                    }
                    fresh
                },
            };
            escape = title.set_busy(true, now);
            if escape.is_some() {
                self.title_next_tick = Some(later(now, SPINNER_INTERVAL_MS));
            }
            self.pane_title = Some(title);
        }
        let asks = persisted_name.is_none() && shows && !self.title_requested;
        if asks {
            self.title_requested = true;
            (escape, Some(self.title_epoch))
        } else {
            (escape, None)
        }
    }

    /// Ends the title of a run: the bare label, no spinner.
    pub fn finish(&mut self, now: u64) -> (r: Option<String>)
        ensures
            final(self)@ == old(self)@.rested(now),
            text::opt_text(r) == old(self)@.rested_escape(now),
    {
        self.title_next_tick = None;
        match self.pane_title.take() {
            Some(mut title) => {
                let escape = title.set_busy(false, now);
                self.pane_title = Some(title);
                escape
            },
            None => None,
        }
    }

    /// Shows that the run waits for the operator, or that it goes on.
    pub fn set_title_waiting(&mut self, waiting: bool, now: u64) -> (r: Option<String>)
        ensures
            final(self)@ == old(self)@.waiting(waiting, now),
            text::opt_text(r) == old(self)@.waiting_escape(waiting, now),
    {
        match self.pane_title.take() {
            Some(mut title) => {
                let escape = title.set_waiting(waiting, now);
                self.pane_title = Some(title);
                escape
            },
            None => None,
        }
    }

    /// Consumes a due spinner tick.
    pub fn tick(&mut self, now: u64) -> (r: Option<String>)
        ensures
            final(self)@ == old(self)@.after_tick(now),
            text::opt_text(r) == old(self)@.tick_escape(now),
    {
        let due = match self.title_next_tick {
            Some(at) => now >= at,
            None => false,
        };
        if !due {
            return None;
        }
        self.title_next_tick = None;
        let escape = match self.pane_title.take() {
            Some(mut title) => {
                let escape = title.tick(now);
                self.pane_title = Some(title);
                escape
            },
            None => None,
        };
        let again = match &self.pane_title {
            Some(title) => should_rearm_title_tick(Some(title)),
            None => should_rearm_title_tick(None),
        };
        if again {
            self.title_next_tick = Some(later(now, SPINNER_INTERVAL_MS));
        }
        escape
    }

    /// Opens the titles of another session. Returns the escapes to write.
    pub fn switch_session(&mut self, session_name: Option<String>, is_tty: bool, now: u64) -> (r: (
        Option<String>,
        Option<String>,
    ))
        ensures
            final(self)@ == old(self)@.switched(text::opt_text(session_name), is_tty, now),
            (text::opt_text(r.0), text::opt_text(r.1)) == old(self)@.switched_escapes(
                text::opt_text(session_name),
                is_tty,
                now,
            ),
    {
        self.title_epoch = count_on(self.title_epoch);
        self.title_requested = false;
        self.title_next_tick = None;
        self.rename_epoch = count_on(self.rename_epoch);
        let first = match self.pane_title.take() {
            Some(mut title) => {
                let escape = title.set_label(FALLBACK_LABEL, now);
                self.pane_title = Some(title);
                escape
            },
            None => None,
        };
        let second = match &session_name {
            Some(name) => apply_rename_label(&mut self.pane_title, name.as_str(), is_tty, now),
            None => None,
        };
        self.session_name = session_name;
        (first, second)
    }

    /// A rename begins: a generated title that is still out becomes stale.
    pub fn claim_title(&mut self)
        ensures
            final(self)@ == old(self)@.claimed(),
    {
        self.title_epoch = count_on(self.title_epoch);
    }

    /// A name is to be generated. Returns the epoch that its reply must carry.
    pub fn begin_naming(&mut self) -> (r: u64)
        ensures
            final(self)@ == old(self)@.naming(),
            r == final(self)@.rename_epoch,
    {
        self.rename_epoch = count_on(self.rename_epoch);
        self.rename_epoch
    }

    /// Shows a chosen name that was saved. Returns the escape to write.
    pub fn show_name(&mut self, name: &str, is_tty: bool, now: u64) -> (r: Option<String>)
        ensures
            final(self)@ == old(self)@.named(name@, is_tty, now),
            text::opt_text(r) == renamed(old(self)@.pane, name@, is_tty, now).1,
    {
        let escape = apply_rename_label(&mut self.pane_title, name, is_tty, now);
        self.session_name = Some(name.to_string());
        escape
    }

    /// Takes a reply with a generated title. Returns the escape to write.
    pub fn adopt_title(&mut self, epoch: u64, label: Option<String>, now: u64) -> (r: Option<
        String,
    >)
        ensures
            final(self)@ == old(self)@.titled(epoch, text::opt_text(label), now),
            text::opt_text(r) == title_reply(
                old(self)@.pane,
                old(self)@.title_epoch,
                epoch,
                text::opt_text(label),
                now,
            ).1,
    {
        apply_title_result(&mut self.pane_title, self.title_epoch, epoch, label, now)
    }
}

// ---------------------------------------------------------------------------
// Laws
// ---------------------------------------------------------------------------

/// A generated title that was requested before a session switch or a rename
/// never lands: its epoch is no longer current.
pub proof fn law_stale_titles_never_land(
    t: TitlesModel,
    session_name: Option<Seq<char>>,
    is_tty: bool,
    label: Option<Seq<char>>,
    at: u64,
    now: u64,
)
    ensures
        ({
            let after = t.switched(session_name, is_tty, at);
            after.titled(t.title_epoch, label, now) == after
        }),
        t.claimed().titled(t.title_epoch, label, now) == t.claimed(),
{
    let after = t.switched(session_name, is_tty, at);
    assert(after.titled(t.title_epoch, label, now) =~= after);
    assert(t.claimed().titled(t.title_epoch, label, now) =~= t.claimed());
}

/// A name that was requested before a session switch is no longer expected.
pub proof fn law_stale_names_are_not_expected(
    t: TitlesModel,
    session_name: Option<Seq<char>>,
    is_tty: bool,
    now: u64,
)
    ensures
        t.switched(session_name, is_tty, now).rename_epoch != t.rename_epoch,
        t.naming().rename_epoch != t.rename_epoch,
{
}

/// A generated title is requested at most once for each session, and never
/// for a session that the operator named.
pub proof fn law_titles_are_requested_once(t: TitlesModel, shows: bool, name: Option<Seq<char>>)
    ensures
        t.requested ==> !t.requests_title(shows, name),
        name is Some ==> !t.requests_title(shows, name),
        !shows ==> !t.requests_title(shows, name),
{
}

/// Without a terminal no title comes into being and no escape is written.
pub proof fn law_headless_runs_show_no_title(
    t: TitlesModel,
    goal: Seq<char>,
    name: Option<Seq<char>>,
    chosen: Seq<char>,
    now: u64,
)
    requires
        t.pane is None,
    ensures
        t.spinning(goal, false, name, now) == t,
        t.spinning_escape(goal, false, name, now) is None,
        renamed(t.pane, chosen, false, now) == (None::<TitleState>, None::<Seq<char>>),
        t.rested_escape(now) is None,
{
}

/// An idle title arms no further tick, so ticks never keep the loop awake.
pub proof fn law_idle_titles_arm_no_tick(t: TitlesModel, now: u64)
    requires
        t.next_tick is Some,
        now >= t.next_tick->0,
        t.pane is None || !t.pane->0.busy,
    ensures
        t.after_tick(now).next_tick is None,
{
}

/// The title is on unless its setting says `false`, white space around it or
/// not.
pub proof fn law_only_false_turns_the_title_off(values: Map<Seq<char>, Seq<char>>)
    ensures
        ({
            let id = "runtime.terminal_title_enabled"@;
            &&& !values.dom().contains(id) ==> title_enabled(values)
            &&& values.dom().contains(id) ==> (title_enabled(values) <==> text::trimmed(values[id])
                != "false"@)
        }),
{
}

/// A run that starts on a terminal spins the title: under the name of the
/// session where it has one, else under its goal, from this moment on. A title
/// that is there already keeps its label.
pub proof fn law_a_run_spins_the_title(
    t: TitlesModel,
    goal: Seq<char>,
    name: Seq<char>,
    now: u64,
)
    requires
        t.pane is None || !t.pane->0.busy,
    ensures
        ({
            let spun = t.spinning(goal, true, None, now);
            let named = t.spinning(goal, true, Some(name), now);
            &&& spun.pane is Some && spun.pane->0.busy && spun.pane->0.busy_since == Some(now)
            &&& named.pane is Some && named.pane->0.busy && named.pane->0.busy_since == Some(now)
            &&& t.pane is None ==> spun.pane->0.label == pane_title::title_label(goal)
                && named.pane->0.label == pane_title::title_label(name)
            &&& t.pane is Some ==> spun.pane->0.label == t.pane->0.label && named.pane->0.label
                == t.pane->0.label
            &&& spun.session_name == t.session_name
        }),
{
}

/// A run that ends leaves the bare label: the title is idle and no longer asks,
/// and no tick follows.
pub proof fn law_the_end_leaves_the_bare_label(t: TitlesModel, now: u64)
    requires
        t.pane is Some,
    ensures
        t.rested(now).pane is Some,
        !t.rested(now).pane->0.busy,
        t.rested(now).pane->0.label == t.pane->0.label,
        t.pane->0.busy ==> !t.rested(now).pane->0.waiting,
        t.rested(now).pane->0.title(now) == t.pane->0.label,
        t.rested(now).next_tick is None,
        t.pane->0.busy && t.pane->0.last_emitted != Some(t.pane->0.label) ==> t.rested_escape(now)
            == Some("\u{1b}]2;"@ + t.pane->0.label + "\u{7}"@),
{
}

/// While the operator is asked the title says so, and no longer.
pub proof fn law_the_title_says_that_the_operator_is_asked(t: TitlesModel, waiting: bool, now: u64)
    requires
        t.pane is Some,
    ensures
        t.waiting(waiting, now).pane is Some,
        t.waiting(waiting, now).pane->0.waiting == waiting,
        t.waiting(waiting, now).pane->0.label == t.pane->0.label,
        t.waiting(waiting, now).pane->0.busy == t.pane->0.busy,
        t.pane->0.waiting == waiting ==> t.waiting_escape(waiting, now) is None,
{
}

/// A name or a title that is still wanted becomes the label; on a terminal a
/// name makes a title where there is none.
pub proof fn law_a_wanted_name_becomes_the_label(
    t: TitlesModel,
    name: Seq<char>,
    is_tty: bool,
    now: u64,
)
    ensures
        t.named(name, is_tty, now).session_name == Some(name),
        t.pane is Some || is_tty ==> t.named(name, is_tty, now).pane is Some && t.named(
            name,
            is_tty,
            now,
        ).pane->0.label == pane_title::title_label(name),
        t.pane is Some ==> {
            &&& t.titled(t.title_epoch, Some(name), now).pane is Some
            &&& t.titled(t.title_epoch, Some(name), now).pane->0.label == pane_title::title_label(
                name,
            )
            &&& t.titled(t.title_epoch, Some(name), now).pane->0.busy == t.pane->0.busy
            &&& t.titled(t.title_epoch, None, now) == t
        },
{
    assert(t.titled(t.title_epoch, None, now) =~= t);
}

/// Another session begins with its own name, or with `drip` where it has none.
pub proof fn law_another_session_begins_with_its_own_name(
    t: TitlesModel,
    name: Seq<char>,
    is_tty: bool,
    now: u64,
)
    requires
        t.pane is Some,
    ensures
        t.switched(None, is_tty, now).pane is Some,
        t.switched(None, is_tty, now).pane->0.label == "drip"@,
        t.switched(Some(name), is_tty, now).pane is Some,
        t.switched(Some(name), is_tty, now).pane->0.label == pane_title::title_label(name),
        t.switched(Some(name), is_tty, now).session_name == Some(name),
        !t.switched(None, is_tty, now).requested,
{
    lemma_drip_is_its_label();
}

proof fn lemma_drip_is_its_label()
    ensures
        pane_title::title_label("drip"@) == "drip"@,
{
    pane_title::lemma_fallback_is_label();
    pane_title::law_title_label_is_stable("drip"@);
}

/// A tick that is due moves the spinner, and the next is due a tenth of a
/// second later; before its time nothing moves. A title is asked for where none
/// was, on a terminal, for a session without a name.
pub proof fn law_ticks_come_a_tenth_of_a_second_apart(t: TitlesModel, at: u64, now: u64)
    requires
        t.next_tick == Some(at),
        now <= u64::MAX - 100,
    ensures
        now < at ==> t.after_tick(now) == t && t.tick_escape(now) is None,
        now >= at && t.pane is Some && t.pane->0.busy ==> t.after_tick(now).next_tick == Some(
            (now + 100) as u64,
        ),
        !t.requested ==> t.requests_title(true, None),
{
}

/// What is seen of the titles is what they hold, field by field.
pub proof fn law_titles_are_seen_as_they_are(it: Titles)
    ensures
        it@.pane == pane_model(it.pane_title),
        it@.session_name == text::opt_text(it.session_name),
        it@.requested == it.title_requested,
        it@.title_epoch == it.title_epoch,
        it@.rename_epoch == it.rename_epoch,
        it@.next_tick == it.title_next_tick,
{
}

} // verus!
