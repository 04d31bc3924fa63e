//! Reporting which theme is the active one.

use crate::errors::{friendly_message, LeftError};
use crate::models::config::{gathered, Config, RepoView};
use crate::models::theme::{theme_views, ThemeView};
use crate::models::Theme;
use vstd::prelude::*;

verus! {

/// The arguments of `status`.
#[derive(Debug)]
pub struct Status {
    /// Fail where no theme is the active one.
    pub error: bool,
}

/// What `status` reports.
#[derive(Debug)]
pub struct StatusReport {
    /// The themes that are marked as the active one, each with its source.
    pub current: Vec<Theme>,
    /// How many of the known themes are installed.
    pub installed: usize,
}

/// The themes of all registries that are marked as the active one, in order.
pub open spec fn current_themes(repos: Seq<RepoView>) -> Seq<ThemeView> {
    gathered(repos, false).filter(|t: ThemeView| t.current == Some(true))
}

/// How many themes of all registries are installed.
pub open spec fn installed_count(repos: Seq<RepoView>) -> nat {
    gathered(repos, false).filter(|t: ThemeView| t.directory.is_some()).len()
}

impl Status {
    /// The report on the known themes, and whether the command succeeds: it fails where
    /// no theme is marked as the active one and the arguments ask for a failure then.
    pub fn exec(&self, config: &Config) -> (r: (StatusReport, Result<(), LeftError>))
        ensures
            theme_views(r.0.current@) == current_themes(config@.repos),
            r.0.installed == installed_count(config@.repos),
            r.1.is_err() <==> self.error && current_themes(config@.repos).len() == 0,
            r.1 matches Err(e) ==> (e.inner matches crate::errors::LeftErrorKind::UserFriendlyError(
                message,
            ) && message@ == "Error! No theme set."@),
    {
        let themes = config.themes(false);
        let ghost all = theme_views(themes@);
        let ghost marked = |t: ThemeView| t.current == Some(true);
        let ghost on_disk = |t: ThemeView| t.directory.is_some();
        let mut current: Vec<Theme> = Vec::new();
        let mut installed: usize = 0;
        let mut i: usize = 0;
        proof {
            reveal(Seq::filter);
            assert(all.take(0).filter(marked) =~= theme_views(current@));
            assert(all.take(0).filter(on_disk).len() == 0);
        }
        while i < themes.len()
            invariant
                i <= themes.len(),
                all == theme_views(themes@),
                marked == |t: ThemeView| t.current == Some(true),
                on_disk == |t: ThemeView| t.directory.is_some(),
                theme_views(current@) == all.take(i as int).filter(marked),
                installed == all.take(i as int).filter(on_disk).len(),
                installed <= i,
            decreases themes.len() - i,
        {
            let theme = &themes[i];
            proof {
                reveal(Seq::filter);
                assert(all.take(i + 1).drop_last() =~= all.take(i as int));
                assert(all.take(i + 1).last() == theme@);
            }
            if theme.is_current() {
                let ghost before = theme_views(current@);
                current.push(theme.clone());
                assert(theme_views(current@) =~= before.push(theme@));
            }
            if theme.directory.is_some() {
                installed += 1;
            }
            i += 1;
        }
        assert(all.take(themes.len() as int) =~= all);
        let outcome = if current.len() == 0 && self.error {
            Err(friendly_message("Error! No theme set."))
        } else {
            Ok(())
        };
        (StatusReport { current, installed }, outcome)
    }
}

} // verus!
