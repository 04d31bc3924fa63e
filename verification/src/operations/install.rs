//! Installing a theme from its repository.

use crate::errors::{friendly_message, is_friendly, LeftError};
use crate::models::config::{gathered, Config, ConfigView, RepoView};
use crate::models::paths;
use crate::models::paths::path_join;
use crate::models::theme::{all_named, located, replaced, theme_views, ThemeView};
use crate::models::Theme;
use vstd::prelude::*;

verus! {

/// The arguments of `install`.
#[derive(Debug)]
pub struct Install {
    /// Read the theme from a git repository.
    pub git: bool,
    /// Read the theme from a path.
    pub path: bool,
    /// The theme to install.
    pub name: String,
}

/// Whether one of the themes is installed.
pub open spec fn any_installed(themes: Seq<ThemeView>) -> bool {
    exists|i: int| 0 <= i < themes.len() && (#[trigger] themes[i]).directory.is_some()
}

/// The registries after a theme's record took a directory.
pub open spec fn installed_at(
    repos: Seq<RepoView>,
    name: Seq<char>,
    source: Seq<char>,
    dir: Seq<char>,
) -> Seq<RepoView> {
    match located(repos, name, source) {
        Some((i, j)) => replaced(
            repos,
            i,
            j,
            ThemeView { directory: Some(dir), ..repos[i].themes[j] },
        ),
        None => repos,
    }
}

/// The theme to install where only one has the wanted name. Fails where none has it;
/// where several have it, the user has to pick one (see [`ask`]).
pub fn choose_one(themes: &Vec<Theme>) -> (r: Result<Option<usize>, LeftError>)
    ensures
        match r {
            Ok(Some(index)) => themes.len() == 1 && index == 0,
            Ok(None) => themes.len() > 1,
            Err(e) => themes.len() == 0 && is_friendly(e, "No themes with that name were found"@),
        },
{
    if themes.len() == 1 {
        Ok(Some(0))
    } else if themes.len() == 0 {
        Err(friendly_message("No themes with that name were found"))
    } else {
        Ok(None)
    }
}

/// What follows from the user's answer to the question which of several themes to
/// install. Fails where one of them is installed already. An answer that is the place of
/// one of the themes picks it; without such an answer the question is to be asked again.
pub fn ask(themes: &Vec<Theme>, answer: Option<usize>) -> (r: Result<Option<usize>, LeftError>)
    ensures
        match r {
            Ok(Some(index)) => !any_installed(theme_views(themes@)) && answer == Some(index)
                && index < themes.len(),
            Ok(None) => !any_installed(theme_views(themes@)) && !(answer matches Some(index)
                && index < themes.len()),
            Err(e) => any_installed(theme_views(themes@)) && is_friendly(
                e,
                "Theme already installed"@,
            ),
        },
{
    let mut i: usize = 0;
    while i < themes.len()
        invariant
            i <= themes.len(),
            forall|k: int| 0 <= k < i ==> (#[trigger] theme_views(themes@)[k]).directory.is_none(),
        decreases themes.len() - i,
    {
        if themes[i].directory.is_some() {
            assert(theme_views(themes@)[i as int].directory.is_some());
            return Err(friendly_message("Theme already installed"));
        }
        i += 1;
    }
    match answer {
        Some(index) => {
            if index < themes.len() {
                Ok(Some(index))
            } else {
                Ok(None)
            }
        },
        None => Ok(None),
    }
}

impl Install {
    /// The themes that have the wanted name, each with its source.
    pub fn exec(&self, config: &Config) -> (r: Vec<Theme>)
        ensures
            theme_views(r@) == all_named(gathered(config@.repos, false), self.name@, false),
    {
        match Theme::find_all(config, self.name.as_str()) {
            Some(found) => found,
            None => Vec::new(),
        }
    }

    /// What to clone and where to: the theme's repository, and the directory of the
    /// theme's name under the themes directory. Fails where the theme names no
    /// repository.
    pub fn install_selected_theme(&self, theme: &Theme, themes_dir: &str) -> (r: Result<
        (String, String),
        LeftError,
    >)
        ensures
            match r {
                Ok((repository, dir)) => theme@.repository == Some(repository@) && dir@
                    == path_join(themes_dir@, theme@.name),
                Err(e) => theme@.repository.is_none() && is_friendly(
                    e,
                    "Repository information missing for theme"@,
                ),
            },
    {
        match &theme.repository {
            Some(repo) => Ok((repo.clone(), paths::join(themes_dir, theme.name.as_str()))),
            None => Err(friendly_message("Repository information missing for theme")),
        }
    }

    /// Records where the theme was installed: the record of the wanted name in the
    /// registry that the theme came from takes the directory. Fails, and changes
    /// nothing, where the theme has no source or that registry has no such record. To
    /// write the configuration to its file afterwards is left to the caller.
    pub fn add_to_config_and_save(&self, theme: &Theme, config: &mut Config, dir: String) -> (r:
        Result<(), LeftError>)
        ensures
            r.is_ok() <==> (theme@.source matches Some(source) && located(
                old(config)@.repos,
                self.name@,
                source,
            ).is_some()),
            r matches Err(e) ==> is_friendly(e, "Theme not found in db"@),
            final(config)@ == (ConfigView {
                repos: match theme@.source {
                    Some(source) => installed_at(old(config)@.repos, self.name@, source, dir@),
                    None => old(config)@.repos,
                },
                ..old(config)@
            }),
    {
        match &theme.source {
            Some(source) => match Theme::find_mut(config, self.name.as_str(), source.as_str()) {
                Some(target_theme) => {
                    target_theme.directory = Some(dir);
                    Ok(())
                },
                None => Err(friendly_message("Theme not found in db")),
            },
            None => Err(friendly_message("Theme not found in db")),
        }
    }
}

} // verus!
