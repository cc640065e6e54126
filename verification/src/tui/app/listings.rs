//! Listings: what the session shows once what a command asked for is known.

use vstd::prelude::*;
use crate::text;
use crate::tui::app::marketplace;
use crate::tui::app::marketplace::{
    added_text, marketplaces_text, plugin_text, removed_text, updated_text, MarketplaceReport,
    MarketplaceState, PluginReport,
};
use crate::tui::app::overlay::ModelProfile;
use crate::tui::app::replies;
use crate::tui::app::replies::{
    config_failure_text, config_text, env_references, env_saved_text, env_text, roles_text,
    ConfigReport, EnvFound, EnvReference, RoleReport,
};
use crate::tui::app::state::{AppModel, TuiApp};

verus! {

impl AppModel {
    /// A notice where something was done, and an error where it failed.
    pub open spec fn reported(self, done: Seq<char>, failure: Option<Seq<char>>) -> AppModel {
        match failure {
            Some(error) => self.error(error),
            None => self.info(done),
        }
    }

    /// `/config`: where no route can be found, the notice says why.
    pub open spec fn config_shown(self, found: Result<ConfigReport, String>) -> AppModel {
        match found {
            Ok(report) => self.info(text::joined(replies::config_lines(report), "\n"@)),
            Err(error) => self.info(
                "config: "@ + self.bootstrap.home.config_path@ + "\nprofile error: "@ + error@,
            ),
        }
    }

    /// `/marketplace list`.
    pub open spec fn marketplaces_shown(self, found: Result<MarketplaceState, String>) -> AppModel {
        match found {
            Ok(state) => self.info(
                marketplace::marketplaces_said(
                    state.records@,
                    state.plugins@,
                    text::texts(state.issues@),
                ),
            ),
            Err(error) => self.error(error@),
        }
    }

    /// `/marketplace add`, once the marketplace is there.
    pub open spec fn marketplace_added(
        self,
        added: Result<(MarketplaceReport, MarketplaceState), String>,
    ) -> AppModel {
        match added {
            Ok(pair) => self.info(
                marketplace::added_said(pair.0, pair.1.plugins@, text::texts(pair.1.issues@)),
            ),
            Err(error) => self.error(error@),
        }
    }

    /// `/marketplace update`, once it is done.
    pub open spec fn marketplaces_updated(self, updated: Result<Vec<String>, String>) -> AppModel {
        match updated {
            Ok(names) => self.info(
                if names@.len() == 0 {
                    "nothing to update (local marketplaces read in place)."@
                } else {
                    "updated: "@ + text::joined(text::texts(names@), ", "@)
                },
            ),
            Err(error) => self.error(error@),
        }
    }
}

impl TuiApp {
    fn report(&mut self, done: &str, failure: Option<String>)
        requires
            old(self)@.wf(),
        ensures
            final(self)@ == old(self)@.reported(done@, text::opt_text(failure)),
            final(self)@.wf(),
    {
        match failure {
            Some(error) => {
                self.push_error(error.as_str());
            },
            None => {
                self.push_info(done);
            },
        }
    }

    /// Shows what the settings come to.
    pub fn show_config(&mut self, found: Result<ConfigReport, String>)
        requires
            old(self)@.wf(),
        ensures
            final(self)@ == old(self)@.config_shown(found),
            final(self)@.wf(),
    {
        let said = match found {
            Ok(report) => config_text(&report),
            Err(error) => config_failure_text(
                self.bootstrap.home.config_path.as_str(),
                error.as_str(),
            ),
        };
        self.push_info(said.as_str());
    }

    /// Shows the roles and what is bound to them.
    pub fn show_roles(
        &mut self,
        roles: &Vec<RoleReport>,
        planning: &Option<String>,
        task: &Option<String>,
        issues: &Vec<String>,
    )
        requires
            old(self)@.wf(),
        ensures
            final(self)@ == old(self)@.info(
                replies::roles_said(roles@, *planning, *task, text::texts(issues@)),
            ),
            final(self)@.wf(),
    {
        let said = roles_text(roles, planning, task, issues);
        self.push_info(said.as_str());
    }

    /// The tokens to look up for `/env`; profiles that cannot be read are an
    /// error.
    pub fn begin_env(&mut self, profiles: Result<Vec<ModelProfile>, String>) -> (r: Option<
        Vec<EnvReference>,
    >)
        requires
            old(self)@.wf(),
        ensures
            match profiles {
                Ok(list) => r is Some && replies::reference_models(r->0@) == replies::references(
                    list@,
                ) && final(self)@ == old(self)@,
                Err(error) => r is None && final(self)@ == old(self)@.error(error@),
            },
            final(self)@.wf(),
    {
        match profiles {
            Ok(list) => Some(env_references(&list)),
            Err(error) => {
                self.push_error(error.as_str());
                None
            },
        }
    }

    /// Shows where each token comes from.
    pub fn show_env(&mut self, refs: &Vec<EnvReference>, found: &Vec<EnvFound>)
        requires
            old(self)@.wf(),
            refs@.len() == found@.len(),
        ensures
            final(self)@ == old(self)@.info(
                replies::env_said(
                    old(self)@.bootstrap.home.env_vars_path@,
                    replies::reference_models(refs@),
                    found@,
                ),
            ),
            final(self)@.wf(),
    {
        let said = env_text(self.bootstrap.home.env_vars_path.as_str(), refs, found);
        self.push_info(said.as_str());
    }

    /// Says what became of saving a token.
    pub fn finish_env(&mut self, key: &str, failure: Option<String>)
        requires
            old(self)@.wf(),
        ensures
            final(self)@ == old(self)@.reported(
                key@ + " saved to "@ + old(self)@.bootstrap.home.env_vars_path@,
                text::opt_text(failure),
            ),
            final(self)@.wf(),
    {
        let said = env_saved_text(key, self.bootstrap.home.env_vars_path.as_str());
        self.report(said.as_str(), failure);
    }

    /// Shows the marketplaces.
    pub fn show_marketplaces(&mut self, found: Result<MarketplaceState, String>)
        requires
            old(self)@.wf(),
        ensures
            final(self)@ == old(self)@.marketplaces_shown(found),
            final(self)@.wf(),
    {
        match found {
            Ok(state) => {
                let said = marketplaces_text(&state.records, &state.plugins, &state.issues);
                self.push_info(said.as_str());
            },
            Err(error) => {
                self.push_error(error.as_str());
            },
        }
    }

    /// Says what became of adding a marketplace.
    pub fn finish_added(&mut self, added: Result<(MarketplaceReport, MarketplaceState), String>)
        requires
            old(self)@.wf(),
            added is Ok ==> marketplace::is_countable(
                (added->Ok_0).1.plugins@,
                (added->Ok_0).0.name@,
            ),
        ensures
            final(self)@ == old(self)@.marketplace_added(added),
            final(self)@.wf(),
    {
        match added {
            Ok(pair) => {
                let said = added_text(&pair.0, &pair.1.plugins, &pair.1.issues);
                self.push_info(said.as_str());
            },
            Err(error) => {
                self.push_error(error.as_str());
            },
        }
    }

    /// Says what became of removing a marketplace.
    pub fn finish_removed(&mut self, name: &str, failure: Option<String>)
        requires
            old(self)@.wf(),
        ensures
            final(self)@ == old(self)@.reported(
                "removed marketplace \""@ + name@ + "\"."@,
                text::opt_text(failure),
            ),
            final(self)@.wf(),
    {
        let said = removed_text(name);
        self.report(said.as_str(), failure);
    }

    /// Says what became of updating marketplaces.
    pub fn finish_updated(&mut self, updated: Result<Vec<String>, String>)
        requires
            old(self)@.wf(),
        ensures
            final(self)@ == old(self)@.marketplaces_updated(updated),
            final(self)@.wf(),
    {
        match updated {
            Ok(names) => {
                let said = updated_text(&names);
                self.push_info(said.as_str());
            },
            Err(error) => {
                self.push_error(error.as_str());
            },
        }
    }

    /// Says what became of switching a plugin; `plugins` are those that are
    /// registered.
    pub fn finish_plugin(
        &mut self,
        key: &str,
        enable: bool,
        plugins: &Vec<PluginReport>,
        failure: Option<String>,
    )
        requires
            old(self)@.wf(),
        ensures
            final(self)@ == old(self)@.reported(
                marketplace::plugin_said(key@, enable, marketplace::is_known(plugins@, key@)),
                text::opt_text(failure),
            ),
            final(self)@.wf(),
    {
        let said = plugin_text(key, enable, plugins);
        self.report(said.as_str(), failure);
    }
}

// ---------------------------------------------------------------------------
// Laws
// ---------------------------------------------------------------------------

/// What was done is said, and a failure is said as an error with its reason;
/// nothing is said to be done that was not.
pub proof fn law_a_failure_is_never_told_as_done(app: AppModel, done: Seq<char>, error: Seq<char>)
    ensures
        app.reported(done, None) == app.info(done),
        app.reported(done, Some(error)) == app.error(error),
{
}

/// An update names what it updated, and says where there was nothing to do.
pub proof fn law_an_update_names_what_it_updated(app: AppModel, names: Vec<String>, error: String)
    ensures
        names@.len() > 0 ==> app.marketplaces_updated(Ok(names)) == app.info(
            "updated: "@ + text::joined(text::texts(names@), ", "@),
        ),
        names@.len() == 0 ==> app.marketplaces_updated(Ok(names)) == app.info(
            "nothing to update (local marketplaces read in place)."@,
        ),
        app.marketplaces_updated(Err(error)) == app.error(error@),
{
}

/// A listing is shown where it could be read, and the reason where it could
/// not.
pub proof fn law_a_listing_or_its_failure_is_shown(
    app: AppModel,
    state: MarketplaceState,
    report: ConfigReport,
    error: String,
)
    ensures
        app.marketplaces_shown(Ok(state)) == app.info(
            marketplace::marketplaces_said(
                state.records@,
                state.plugins@,
                text::texts(state.issues@),
            ),
        ),
        app.marketplaces_shown(Err(error)) == app.error(error@),
        app.marketplace_added(Err(error)) == app.error(error@),
        app.config_shown(Ok(report)) == app.info(
            text::joined(replies::config_lines(report), "\n"@),
        ),
        app.config_shown(Err(error)) == app.info(
            "config: "@ + app.bootstrap.home.config_path@ + "\nprofile error: "@ + error@,
        ),
{
}

} // verus!
