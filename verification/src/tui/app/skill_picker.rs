//! Skills in the session: switching them on and off, and the picker that
//! searches them.

use vstd::prelude::*;
use crate::text;
use crate::text::{concat3, same};
use crate::transcript::EntryModel;
use crate::tui::app::composer;
use crate::tui::app::composer::ComposerModel;
use crate::tui::app::effects::{Effect, EffectModel};
use crate::tui::app::input::{Key, KeyModel};
use crate::tui::app::overlay;
use crate::tui::app::overlay::{Overlay, OverlayKind, OverlayModel};
use crate::tui::app::skills;
use crate::tui::app::skills::{
    canonical_skill_name, deactivate, is_active, skill_is_locked, skill_picker_items, LoadedSkill,
    SkillRow,
};
use crate::tui::app::state::{AppModel, TuiApp};

verus! {

/// What became of loading a skill.
pub enum SkillLoad {
    /// No skill of that name was found.
    Missing,
    Failed(String),
    Loaded(LoadedSkill),
}

/// The selection kept on a row of a list of `n` rows.
pub open spec fn kept_on(selected: int, n: nat) -> int {
    if n == 0 {
        0
    } else if selected < n {
        selected
    } else {
        n - 1
    }
}

impl OverlayModel {
    /// The skills picker over the rows that its search keeps.
    pub open spec fn searched(self, rows: Seq<SkillRow>) -> OverlayModel {
        let items = skills::skill_items(skills::visible_rows(rows, self.filter));
        OverlayModel { selected: kept_on(self.selected, items.len()), items, ..self }
    }
}

impl AppModel {
    /// A skill is to be switched on; one that is on stays on.
    pub open spec fn skill_enabled(self, name: Seq<char>) -> AppModel {
        if skills::active_names(self.active).contains(name) {
            self.info("skill \""@ + name + "\" is already enabled for this session."@)
        } else {
            self.with(EffectModel::LoadSkill(name))
        }
    }

    /// What became of loading it.
    pub open spec fn skill_loaded(self, name: Seq<char>, load: SkillLoad) -> AppModel {
        match load {
            SkillLoad::Missing => self.error(
                "No skill named \""@ + name + "\". Try /skills to list what is available."@,
            ),
            SkillLoad::Failed(error) => self.error(
                "Could not load skill \""@ + name + "\": "@ + error@,
            ),
            SkillLoad::Loaded(skill) => AppModel {
                active: self.active.push(skill),
                ..self
            }.skill_noted(name, true),
        }
    }

    /// A skill switched off where it is on, and on where it is off.
    pub open spec fn skill_toggled(self, name: Seq<char>) -> AppModel {
        if skills::active_names(self.active).contains(name) {
            AppModel {
                active: skills::without_name(self.active, name),
                ..self
            }.skill_noted(name, false)
        } else {
            self.skill_enabled(name)
        }
    }

    /// The same from the picker, where a locked row stays as it is.
    pub open spec fn row_toggled(self, name: Seq<char>) -> AppModel {
        if skills::is_locked(self.skill_rows, name) {
            self
        } else {
            self.skill_toggled(name)
        }
    }

    /// Whether a name is that of a skill that was found.
    pub open spec fn knows_skill(self, name: Seq<char>) -> bool {
        skills::canonical(self.composer.catalog, name) is Some
    }

    /// A skill that was found is switched on, under the name it was found by.
    pub open spec fn skill_named(self, name: Seq<char>) -> AppModel {
        match skills::canonical(self.composer.catalog, name) {
            Some(found) => self.skill_enabled(found),
            None => self,
        }
    }

    /// The skills that are there now.
    pub open spec fn skills_found(
        self,
        catalog: Seq<(Seq<char>, Seq<char>)>,
        rows: Seq<SkillRow>,
    ) -> AppModel {
        AppModel {
            composer: ComposerModel { catalog, ..self.composer },
            skill_rows: rows,
            ..self
        }
    }

    /// The skills picker opens over them; where there is none, a word says how
    /// to get some.
    pub open spec fn skills_browsed(
        self,
        catalog: Seq<(Seq<char>, Seq<char>)>,
        rows: Seq<SkillRow>,
    ) -> AppModel {
        let found = self.skills_found(catalog, rows);
        if rows.len() == 0 {
            found.info(
                "no skills found. Add SKILL.md files under "@ + self.bootstrap.home.skills_dir@
                    + "/<name>/ or ./.drip/skills/<name>/, or register a marketplace with /marketplace add."@,
            )
        } else {
            AppModel {
                overlay: Some(
                    OverlayModel::opened(
                        OverlayKind::Skills,
                        "Skills"@,
                        skills::skill_items(skills::visible_rows(rows, Seq::empty())),
                    ),
                ),
                ..found
            }
        }
    }

    /// The picker after a change of its search text.
    pub open spec fn skills_filtered(self, filter: Seq<char>) -> AppModel {
        match self.overlay {
            Some(o) => AppModel {
                overlay: Some(OverlayModel { filter, ..o }.searched(self.skill_rows)),
                ..self
            },
            None => self,
        }
    }

    /// The highlighted row switched.
    pub open spec fn highlighted_toggled(self, o: OverlayModel) -> AppModel {
        match o.picked() {
            Some(item) => self.row_toggled(item.id),
            None => self,
        }
    }

    /// A key in the skills picker `o`.
    pub open spec fn skill_key(self, o: OverlayModel, key: KeyModel) -> AppModel {
        match key {
            KeyModel::Escape => AppModel { overlay: None, ..self },
            KeyModel::Return => self.highlighted_toggled(o),
            KeyModel::Text(s) => if s == " "@ {
                self.highlighted_toggled(o)
            } else {
                self.skills_filtered(o.filter + s)
            },
            KeyModel::Paste(s) => self.skills_filtered(o.filter + s),
            KeyModel::Backspace | KeyModel::Delete => self.skills_filtered(
                if o.filter.len() == 0 {
                    o.filter
                } else {
                    o.filter.drop_last()
                },
            ),
            KeyModel::Up => AppModel { overlay: Some(o.moved_up()), ..self },
            KeyModel::Down | KeyModel::Tab => AppModel { overlay: Some(o.moved_down()), ..self },
            KeyModel::Ctrl(c) => if c == 'c' {
                self.ended()
            } else {
                self
            },
            _ => self,
        }
    }
}

/// A text without its last character.
pub fn without_last(s: &str) -> (r: String)
    ensures
        r@ == (if s@.len() == 0 {
            s@
        } else {
            s@.drop_last()
        }),
{
    let n: usize = s.unicode_len();
    if n == 0 {
        return s.to_string();
    }
    let r = text::take_chars(s, n - 1);
    assert(r@ =~= s@.drop_last());
    r
}

impl TuiApp {
    /// Switches a skill on; it never switches one off.
    pub fn enable_skill(&mut self, name: &str)
        requires
            old(self)@.wf(),
        ensures
            final(self)@ == old(self)@.skill_enabled(name@),
            final(self)@.wf(),
    {
        if is_active(&self.active_skills, name) {
            let said = concat3("skill \"", name, "\" is already enabled for this session.");
            self.push_info(said.as_str());
        } else {
            self.emit(Effect::LoadSkill(name.to_string()));
        }
    }

    /// Takes in what became of loading a skill.
    pub fn adopt_skill(&mut self, name: &str, load: SkillLoad)
        requires
            old(self)@.wf(),
        ensures
            final(self)@ == old(self)@.skill_loaded(name@, load),
            final(self)@.wf(),
    {
        match load {
            SkillLoad::Missing => {
                let said = concat3(
                    "No skill named \"",
                    name,
                    "\". Try /skills to list what is available.",
                );
                self.push_error(said.as_str());
            },
            SkillLoad::Failed(error) => {
                let mut said = concat3("Could not load skill \"", name, "\": ");
                said.append(error.as_str());
                self.push_error(said.as_str());
            },
            SkillLoad::Loaded(skill) => {
                self.active_skills.push(skill);
                assert(self@.active =~= old(self)@.active.push(skill));
                self.push_skill_note(name, true);
            },
        }
    }

    /// Switches a skill off where it is on, and on where it is off.
    pub fn toggle_skill(&mut self, name: &str)
        requires
            old(self)@.wf(),
        ensures
            final(self)@ == old(self)@.skill_toggled(name@),
            final(self)@.wf(),
    {
        if is_active(&self.active_skills, name) {
            let mut held: Vec<LoadedSkill> = Vec::new();
            held.append(&mut self.active_skills);
            assert(held@ =~= old(self)@.active);
            self.active_skills = deactivate(held, name);
            self.push_skill_note(name, false);
        } else {
            self.enable_skill(name);
        }
    }

    /// Switches a row of the picker; a locked one stays as it is.
    pub fn skills_toggle(&mut self, name: &str)
        requires
            old(self)@.wf(),
        ensures
            final(self)@ == old(self)@.row_toggled(name@),
            final(self)@.wf(),
    {
        if !skill_is_locked(&self.skill_rows, name) {
            self.toggle_skill(name);
        }
    }

    /// Switches a skill on where one of that name was found.
    pub fn enable_skill_if_discovered(&mut self, name: &str) -> (r: bool)
        requires
            old(self)@.wf(),
        ensures
            final(self)@ == old(self)@.skill_named(name@),
            r == old(self)@.knows_skill(name@),
            final(self)@.wf(),
    {
        match canonical_skill_name(&self.composer.skill_catalog, name) {
            Some(found) => {
                self.enable_skill(found.as_str());
                true
            },
            None => false,
        }
    }

    /// Takes in the skills that are there now.
    pub fn refresh_skill_catalog(
        &mut self,
        catalog: Vec<(String, String)>,
        rows: Vec<SkillRow>,
    )
        requires
            old(self)@.wf(),
        ensures
            final(self)@ == old(self)@.skills_found(composer::pair_models(catalog@), rows@),
            final(self)@.wf(),
    {
        self.composer.skill_catalog = catalog;
        self.skill_rows = rows;
        assert(self@ =~= old(self)@.skills_found(composer::pair_models(catalog@), rows@));
    }

    /// Opens the picker over the skills that are there now.
    pub fn open_skill_picker(&mut self, catalog: Vec<(String, String)>, rows: Vec<SkillRow>)
        requires
            old(self)@.wf(),
        ensures
            final(self)@ == old(self)@.skills_browsed(composer::pair_models(catalog@), rows@),
            final(self)@.wf(),
    {
        self.refresh_skill_catalog(catalog, rows);
        if self.skill_rows.len() == 0 {
            let said = concat3(
                "no skills found. Add SKILL.md files under ",
                self.bootstrap.home.skills_dir.as_str(),
                "/<name>/ or ./.drip/skills/<name>/, or register a marketplace with /marketplace add.",
            );
            self.push_info(said.as_str());
        } else {
            let items = skill_picker_items(&self.skill_rows, "");
            proof {
                reveal_strlit("");
                assert(""@ =~= Seq::<char>::empty());
            }
            self.overlay = Some(Overlay::open(OverlayKind::Skills, "Skills".to_string(), items));
        }
    }

    fn filter_skills(&mut self, filter: String)
        requires
            old(self)@.wf(),
        ensures
            final(self)@ == old(self)@.skills_filtered(filter@),
            final(self)@.wf(),
    {
        let items = skill_picker_items(&self.skill_rows, filter.as_str());
        let n: usize = items.len();
        assert(n == overlay::item_models(items@).len());
        let ghost before = self@;
        match &mut self.overlay {
            Some(o) => {
                o.filter = filter;
                o.items = items;
                if n == 0 {
                    o.selected = 0;
                } else if o.selected >= n {
                    o.selected = n - 1;
                }
            },
            None => {},
        }
        assert(self@ =~= before.skills_filtered(filter@));
    }

    fn toggle_highlighted(&mut self, picked: Option<String>)
        requires
            old(self)@.wf(),
        ensures
            final(self)@ == (match text::opt_text(picked) {
                Some(id) => old(self)@.row_toggled(id),
                None => old(self)@,
            }),
            final(self)@.wf(),
    {
        match picked {
            Some(name) => {
                self.skills_toggle(name.as_str());
            },
            None => {},
        }
    }

    /// A key while the skills picker is open. Says whether it was, and then the
    /// key is spent.
    pub fn on_skill_picker_key(&mut self, key: &Key) -> (r: bool)
        requires
            old(self)@.wf(),
        ensures
            r == (old(self)@.overlay is Some && old(self)@.overlay->0.kind
                == OverlayKind::Skills),
            final(self)@ == (if r {
                old(self)@.skill_key(old(self)@.overlay->0, key@)
            } else {
                old(self)@
            }),
            final(self)@.wf(),
    {
        let (filter, picked) = match &self.overlay {
            Some(o) => match o.kind {
                OverlayKind::Skills => {
                    let picked = match o.picked() {
                        Some(item) => Some(item.id),
                        None => None,
                    };
                    (o.filter.clone(), picked)
                },
                _ => {
                    return false;
                },
            },
            None => {
                return false;
            },
        };
        match key {
            Key::Escape => {
                self.overlay = None;
            },
            Key::Return => {
                self.toggle_highlighted(picked);
            },
            Key::Text(s) => {
                if same(s.as_str(), " ") {
                    self.toggle_highlighted(picked);
                } else {
                    let mut longer = filter;
                    longer.append(s.as_str());
                    self.filter_skills(longer);
                }
            },
            Key::Paste(s) => {
                let mut longer = filter;
                longer.append(s.as_str());
                self.filter_skills(longer);
            },
            Key::Backspace | Key::Delete => {
                self.filter_skills(without_last(filter.as_str()));
            },
            Key::Up => {
                match &mut self.overlay {
                    Some(o) => {
                        o.move_up();
                    },
                    None => {},
                }
            },
            Key::Down | Key::Tab => {
                match &mut self.overlay {
                    Some(o) => {
                        o.move_down();
                    },
                    None => {},
                }
            },
            Key::Ctrl(c) => {
                if *c == 'c' {
                    self.quit = true;
                }
            },
            _ => {},
        }
        true
    }
}

// ---------------------------------------------------------------------------
// Laws
// ---------------------------------------------------------------------------

/// Switching a skill on by name never switches one off.
pub proof fn law_enabling_never_disables(app: AppModel, name: Seq<char>)
    ensures
        app.skill_enabled(name).active == app.active,
        app.skill_named(name).active == app.active,
{
}

/// A locked row never changes anything.
pub proof fn law_locked_rows_never_toggle(app: AppModel, name: Seq<char>)
    requires
        skills::is_locked(app.skill_rows, name),
    ensures
        app.row_toggled(name) == app,
{
}

/// Searching writes nothing to the transcript and asks for nothing.
pub proof fn law_searching_leaves_no_trace(app: AppModel, filter: Seq<char>)
    ensures
        app.skills_filtered(filter).feed == app.feed,
        app.skills_filtered(filter).effects == app.effects,
        app.skills_filtered(filter).active == app.active,
{
}

/// A skill that is on is switched off, and said to be; one that is off is to be
/// loaded under its name. Naming one that is on only says so.
pub proof fn law_a_toggle_switches_one_skill(app: AppModel, name: Seq<char>)
    ensures
        skills::active_names(app.active).contains(name) ==> {
            &&& app.skill_toggled(name).active == skills::without_name(app.active, name)
            &&& app.skill_toggled(name).effects == app.effects.push(
                EffectModel::Persist(EntryModel::Skill { at: app.stamp, enabled: false, name }),
            )
            &&& app.skill_enabled(name) == app.info(
                "skill \""@ + name + "\" is already enabled for this session."@,
            )
        },
        !skills::active_names(app.active).contains(name) ==> {
            &&& app.skill_toggled(name).effects == app.effects.push(EffectModel::LoadSkill(name))
            &&& app.skill_toggled(name).active == app.active
            &&& app.skill_enabled(name) == app.skill_toggled(name)
        },
{
}

/// A skill that was loaded is on, behind the others, and is said to be; one
/// that is missing or could not be loaded is told, and switches nothing.
pub proof fn law_a_loaded_skill_is_on(app: AppModel, name: Seq<char>, skill: LoadedSkill, error: String)
    ensures
        app.skill_loaded(name, SkillLoad::Loaded(skill)).active == app.active.push(skill),
        app.skill_loaded(name, SkillLoad::Loaded(skill)).effects == app.effects.push(
            EffectModel::Persist(EntryModel::Skill { at: app.stamp, enabled: true, name }),
        ),
        app.skill_loaded(name, SkillLoad::Missing) == app.error(
            "No skill named \""@ + name + "\". Try /skills to list what is available."@,
        ),
        app.skill_loaded(name, SkillLoad::Failed(error)) == app.error(
            "Could not load skill \""@ + name + "\": "@ + error@,
        ),
{
}

/// A skill that is named goes by the name it was found under; a name that was
/// not found does nothing.
pub proof fn law_a_named_skill_goes_by_its_found_name(app: AppModel, name: Seq<char>)
    ensures
        app.knows_skill(name) <==> skills::canonical(app.composer.catalog, name) is Some,
        skills::canonical(app.composer.catalog, name) matches Some(found) ==> app.skill_named(name)
            == app.skill_enabled(found),
        skills::canonical(app.composer.catalog, name) is None ==> app.skill_named(name) == app,
{
}

/// The skills picker opens over every skill that is there; with none it does
/// not open, and it is said how to get some.
pub proof fn law_the_skills_picker_lists_every_skill(
    app: AppModel,
    catalog: Seq<(Seq<char>, Seq<char>)>,
    rows: Seq<SkillRow>,
)
    ensures
        app.skills_browsed(catalog, rows).skill_rows == rows,
        app.skills_browsed(catalog, rows).composer.catalog == catalog,
        rows.len() > 0 ==> {
            let next = app.skills_browsed(catalog, rows);
            &&& next.overlay is Some
            &&& next.overlay->0.kind == OverlayKind::Skills
            &&& next.overlay->0.selected == 0
            &&& next.overlay->0.items == skills::skill_items(rows)
            &&& next.effects == app.effects
        },
        rows.len() == 0 ==> app.skills_browsed(catalog, rows).overlay == app.overlay
            && app.skills_browsed(catalog, rows).effects == app.effects.push(
            EffectModel::Persist(
                EntryModel::Info {
                    at: app.stamp,
                    text: "no skills found. Add SKILL.md files under "@
                        + app.bootstrap.home.skills_dir@
                        + "/<name>/ or ./.drip/skills/<name>/, or register a marketplace with /marketplace add."@,
                },
            ),
        ),
{
    skills::law_a_search_keeps_every_match(rows, Seq::empty());
    lemma_all_kept(rows);
}

proof fn lemma_all_kept(rows: Seq<SkillRow>)
    ensures
        skills::visible_rows(rows, Seq::empty()) == rows,
    decreases rows.len(),
{
    if rows.len() > 0 {
        lemma_all_kept(rows.drop_last());
        assert(rows.drop_last().push(rows.last()) =~= rows);
    } else {
        assert(skills::visible_rows(rows, Seq::empty()) =~= rows);
    }
}

/// The keys of the skills picker: what is typed or pasted searches, backspace
/// searches for less, enter and space switch the selected skill, the arrows
/// move, and escape closes.
pub proof fn law_the_skills_pickers_keys_do_what_they_say(
    app: AppModel,
    o: OverlayModel,
    s: Seq<char>,
)
    requires
        app.overlay == Some(o),
    ensures
        s != " "@ ==> app.skill_key(o, KeyModel::Text(s)).overlay == Some(
            (OverlayModel { filter: o.filter + s, ..o }).searched(app.skill_rows),
        ),
        app.skill_key(o, KeyModel::Paste(s)).overlay == Some(
            (OverlayModel { filter: o.filter + s, ..o }).searched(app.skill_rows),
        ),
        o.filter.len() > 0 ==> app.skill_key(o, KeyModel::Backspace).overlay == Some(
            (OverlayModel { filter: o.filter.drop_last(), ..o }).searched(app.skill_rows),
        ),
        o.picked() matches Some(item) ==> app.skill_key(o, KeyModel::Return) == app.row_toggled(
            item.id,
        ) && app.skill_key(o, KeyModel::Text(" "@)) == app.row_toggled(item.id),
        app.skill_key(o, KeyModel::Up).overlay == Some(o.moved_up()),
        app.skill_key(o, KeyModel::Down).overlay == Some(o.moved_down()),
        app.skill_key(o, KeyModel::Tab).overlay == Some(o.moved_down()),
        app.skill_key(o, KeyModel::Escape) == (AppModel { overlay: None, ..app }),
        !skills::is_locked(app.skill_rows, s) ==> app.row_toggled(s) == app.skill_toggled(s),
        skills::is_locked(app.skill_rows, s) ==> app.row_toggled(s) == app,
{
}

/// A search lists what it keeps, with the selection on a row of it.
pub proof fn law_a_search_lists_what_it_keeps(o: OverlayModel, rows: Seq<SkillRow>)
    requires
        o.selected >= 0,
    ensures
        ({
            let kept = skills::visible_rows(rows, o.filter);
            let next = o.searched(rows);
            &&& next.items == skills::skill_items(kept)
            &&& o.selected < kept.len() ==> next.selected == o.selected
            &&& kept.len() > 0 && o.selected >= kept.len() ==> next.selected == kept.len() - 1
            &&& kept.len() == 0 ==> next.selected == 0
            &&& next.filter == o.filter
            &&& next.kind == o.kind
        }),
{
}

} // verus!
