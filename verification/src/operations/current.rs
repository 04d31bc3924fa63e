//! Reading a field of the active theme's own file.

use crate::errors::{friendly_message, is_friendly, LeftError};
use crate::models::config::{Config, RepoView};
use crate::models::paths;
use crate::models::paths::{path_join, path_with_extension};
use crate::models::theme::{text, theme_views, ThemeView};
use crate::operations::status::current_themes;
use vstd::prelude::*;

verus! {

/// The arguments of `current`.
#[derive(Debug)]
pub struct Current {
    /// The field to print.
    pub field: String,
}

/// The name of a theme's own file, without its extension.
pub const THEME_FILE_STEM: &'static str = "theme";

/// The extension of a theme's own file.
pub const THEME_FILE_EXTENSION: &'static str = "toml";

/// The file that describes a theme, in the theme's directory.
pub open spec fn theme_file(directory: Seq<char>) -> Seq<char> {
    path_with_extension(path_join(directory, THEME_FILE_STEM@), THEME_FILE_EXTENSION@)
}

/// Whether every theme of the list is installed.
pub open spec fn all_installed(themes: Seq<ThemeView>) -> bool {
    forall|i: int| 0 <= i < themes.len() ==> (#[trigger] themes[i]).directory.is_some()
}

/// The file of the active theme: that of the last theme marked as the active one.
/// There is none where no theme is marked, or where a marked theme is not installed.
pub open spec fn current_theme_file(repos: Seq<RepoView>) -> Option<Seq<char>> {
    let marked = current_themes(repos);
    if marked.len() > 0 && all_installed(marked) {
        Some(theme_file(marked.last().directory.unwrap()))
    } else {
        None
    }
}

impl Current {
    /// The file to read the field from: the active theme's own file.
    pub fn exec(&self, config: &Config) -> (r: Option<String>)
        ensures
            text(r) == current_theme_file(config@.repos),
    {
        let status = crate::operations::status::Status { error: false };
        let (report, _) = status.exec(config);
        let marked = report.current;
        let ghost all = theme_views(marked@);
        if marked.len() == 0 {
            return None;
        }
        let mut i: usize = 0;
        while i < marked.len()
            invariant
                i <= marked.len(),
                all == theme_views(marked@),
                all == current_themes(config@.repos),
                forall|k: int| 0 <= k < i ==> (#[trigger] all[k]).directory.is_some(),
            decreases marked.len() - i,
        {
            if marked[i].directory.is_none() {
                assert(all[i as int].directory.is_none());
                return None;
            }
            i += 1;
        }
        let last = &marked[marked.len() - 1];
        assert(last@ == all.last());
        match &last.directory {
            Some(directory) => {
                let stem = paths::join(directory.as_str(), THEME_FILE_STEM);
                proof {
                    reveal_strlit("toml");
                }
                Some(paths::with_extension(stem.as_str(), THEME_FILE_EXTENSION))
            },
            None => None,
        }
    }

    /// The value to print, given what the theme's file holds under the wanted field.
    /// Fails where it holds nothing there.
    pub fn found(&self, value: Option<String>) -> (r: Result<String, LeftError>)
        ensures
            match r {
                Ok(shown) => value == Some(shown),
                Err(e) => value.is_none() && is_friendly(e, "That field was not found"@),
            },
    {
        match value {
            Some(shown) => Ok(shown),
            None => Err(friendly_message("That field was not found")),
        }
    }
}

} // verus!
