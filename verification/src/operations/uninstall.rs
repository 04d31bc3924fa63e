//! Removing an installed theme.

use crate::errors::{friendly_message, is_friendly, LeftError};
use crate::models::config::{gathered, Config, ConfigView, RepoView};
use crate::models::theme::{all_named, first_of, located, replaced, ThemeView};
use crate::models::Theme;
use vstd::prelude::*;

verus! {

/// The arguments of `uninstall`.
#[derive(Debug)]
pub struct Uninstall {
    /// The theme to remove.
    pub name: String,
    /// Do not ask before removing.
    pub noconfirm: bool,
}

/// The registries after a theme's record forgot its directory.
pub open spec fn forgotten(repos: Seq<RepoView>, name: Seq<char>, source: Seq<char>) -> Seq<
    RepoView,
> {
    match located(repos, name, source) {
        Some((i, j)) => replaced(repos, i, j, ThemeView { directory: None, ..repos[i].themes[j] }),
        None => repos,
    }
}

/// Whether a theme's removal can be recorded: the theme has a source, and the registry
/// of that name has a record of the wanted name.
pub open spec fn recordable(repos: Seq<RepoView>, name: Seq<char>, theme: ThemeView) -> bool {
    theme.source matches Some(source) && located(repos, name, source).is_some()
}

impl Uninstall {
    /// The theme to remove: the first installed theme of the wanted name. Fails, with
    /// words for the user, where there is none.
    pub fn select(&self, config: &Config) -> (r: Result<Theme, LeftError>)
        ensures
            match r {
                Ok(theme) => first_of(all_named(gathered(config@.repos, false), self.name@, true))
                    == Some(theme@) && theme@.directory.is_some(),
                Err(e) => first_of(
                    all_named(gathered(config@.repos, false), self.name@, true),
                ).is_none() && is_friendly(e, "Theme not found"@),
            },
    {
        match Theme::find_installed(config, self.name.as_str()) {
            Some(theme) => {
                proof {
                    gathered(config@.repos, false).lemma_filter_pred(
                        |t: ThemeView| crate::models::theme::wanted(t, self.name@, true),
                        0,
                    );
                }
                Ok(theme)
            },
            None => Err(friendly_message("Theme not found")),
        }
    }

    /// Whether to remove the theme: where the arguments ask for no confirmation, or the
    /// user gave it.
    pub fn confirmed(&self, answer: bool) -> (r: bool)
        ensures
            r == (self.noconfirm || answer),
    {
        self.noconfirm || answer
    }

    /// Records that the theme's directory is gone: the record of the wanted name in the
    /// registry that the theme came from has no directory any more. Fails, with words
    /// for the user, and changes nothing, where the theme has no source or that registry
    /// has no such record.
    pub fn exec(&self, config: &mut Config, theme: &Theme) -> (r: Result<(), LeftError>)
        ensures
            r.is_ok() <==> recordable(old(config)@.repos, self.name@, theme@),
            r matches Err(e) ==> is_friendly(
                e,
                if theme@.source.is_some() {
                    "Could not find theme"@
                } else {
                    "No source found"@
                },
            ),
            final(config)@ == (ConfigView {
                repos: match theme@.source {
                    Some(source) => forgotten(old(config)@.repos, self.name@, source),
                    None => old(config)@.repos,
                },
                ..old(config)@
            }),
    {
        match &theme.source {
            Some(source) => match Theme::find_mut(config, self.name.as_str(), source.as_str()) {
                Some(target_theme) => {
                    target_theme.directory = None;
                    Ok(())
                },
                None => Err(friendly_message("Could not find theme")),
            },
            None => Err(friendly_message("No source found")),
        }
    }
}

} // verus!
