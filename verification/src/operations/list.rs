//! Listing the installed themes.

use crate::models::config::{gathered, Config, RepoView};
use crate::models::theme::{theme_views, ThemeView};
use crate::models::Theme;
use vstd::prelude::*;

verus! {

/// The arguments of `list`.
#[derive(Debug)]
pub struct List {
    /// Print the names only.
    pub names: bool,
}

/// The installed themes of all registries, in order, each with its source.
pub open spec fn installed(repos: Seq<RepoView>, local: bool) -> Seq<ThemeView> {
    gathered(repos, local).filter(|t: ThemeView| t.directory.is_some())
}

/// The installed themes among those of the registries; with `local` set, the local
/// registry is left out.
pub fn installed_themes(config: &Config, local: bool) -> (r: Vec<Theme>)
    ensures
        theme_views(r@) == installed(config@.repos, local),
{
    let themes = config.themes(local);
    let ghost all = theme_views(themes@);
    let ghost pred = |t: ThemeView| t.directory.is_some();
    let mut found: Vec<Theme> = Vec::new();
    let mut i: usize = 0;
    proof {
        reveal(Seq::filter);
        assert(all.take(0).filter(pred) =~= theme_views(found@));
    }
    while i < themes.len()
        invariant
            i <= themes.len(),
            all == theme_views(themes@),
            pred == |t: ThemeView| t.directory.is_some(),
            theme_views(found@) == all.take(i as int).filter(pred),
        decreases themes.len() - i,
    {
        let theme = &themes[i];
        proof {
            reveal(Seq::filter);
            assert(all.take(i + 1).drop_last() =~= all.take(i as int));
            assert(all.take(i + 1).last() == theme@);
        }
        if theme.directory.is_some() {
            let ghost before = theme_views(found@);
            found.push(theme.clone());
            assert(theme_views(found@) =~= before.push(theme@));
        }
        i += 1;
    }
    assert(all.take(themes.len() as int) =~= all);
    found
}

impl List {
    /// The themes to list: the installed ones of all registries, in the order of the
    /// registries, each with its source. An empty list means that none is installed.
    pub fn exec(&self, config: &Config) -> (r: Vec<Theme>)
        ensures
            theme_views(r@) == installed(config@.repos, false),
    {
        installed_themes(config, false)
    }
}

} // verus!
