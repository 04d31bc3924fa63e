//! Bringing the installed themes up to date.

use crate::models::config::{Config, RepoView, LOCAL_REPO_NAME};
use crate::models::theme::{text, theme_views};
use crate::models::Theme;
use crate::operations::list::{installed, installed_themes};
use vstd::prelude::*;

verus! {

/// The arguments of `upgrade`.
#[derive(Debug)]
pub struct Upgrade {
    /// Do not fetch the registries first.
    pub skipdbupdate: bool,
}

/// The places of the registries that are fetched from elsewhere: all but the local
/// ones, in order.
pub open spec fn remote_places(repos: Seq<RepoView>) -> Seq<int> {
    Seq::new(repos.len(), |i: int| i).filter(|i: int| repos[i].name != LOCAL_REPO_NAME@)
}

/// The numbers of a list, as integers.
pub open spec fn places(indices: Seq<usize>) -> Seq<int> {
    indices.map_values(|i: usize| i as int)
}

impl Upgrade {
    /// The places of the registries to fetch and reconcile before the themes are
    /// upgraded: every registry but the local ones, or none where the registries are
    /// not to be updated.
    pub fn sources(&self, config: &Config) -> (r: Vec<usize>)
        ensures
            places(r@) == if self.skipdbupdate {
                Seq::<int>::empty()
            } else {
                remote_places(config@.repos)
            },
            forall|k: int| 0 <= k < r.len() ==> (#[trigger] r[k]) < config.repos.len(),
    {
        let mut found: Vec<usize> = Vec::new();
        if self.skipdbupdate {
            assert(places(found@) =~= Seq::<int>::empty());
            return found;
        }
        let local_name = LOCAL_REPO_NAME.to_string();
        let ghost repos = config@.repos;
        let ghost all = Seq::new(repos.len(), |i: int| i);
        let ghost pred = |i: int| repos[i].name != LOCAL_REPO_NAME@;
        let mut i: usize = 0;
        proof {
            reveal(Seq::filter);
            assert(all.take(0).filter(pred) =~= places(found@));
        }
        while i < config.repos.len()
            invariant
                i <= config.repos.len(),
                repos == config@.repos,
                all == Seq::new(repos.len(), |i: int| i),
                pred == |i: int| repos[i].name != LOCAL_REPO_NAME@,
                local_name@ == LOCAL_REPO_NAME@,
                places(found@) == all.take(i as int).filter(pred),
                forall|k: int| 0 <= k < found.len() ==> (#[trigger] found[k]) < config.repos.len(),
            decreases config.repos.len() - i,
        {
            proof {
                reveal(Seq::filter);
                assert(all.take(i + 1).drop_last() =~= all.take(i as int));
                assert(all.take(i + 1).last() == i as int);
                assert(repos[i as int] == config.repos[i as int]@);
            }
            if !(config.repos[i].name == local_name) {
                let ghost before = places(found@);
                found.push(i);
                assert(places(found@) =~= before.push(i as int));
            }
            i += 1;
        }
        assert(all.take(config.repos.len() as int) =~= all);
        found
    }

    /// What to check out once a theme's repository was asked for what is new: the commit
    /// that the theme is pinned to, where the fetch succeeded and the theme is pinned to
    /// one. A fetch that failed is no reason to stop: nothing is checked out for that
    /// theme, and the upgrade goes on with the next.
    pub fn after_fetch(theme: &Theme, fetched: bool) -> (r: Option<String>)
        ensures
            text(r) == if fetched {
                match theme@.commit {
                    Some(commit) => if commit == "*"@ {
                        None
                    } else {
                        Some(commit)
                    },
                    None => None,
                }
            } else {
                None
            },
    {
        if fetched {
            theme.pinned_commit()
        } else {
            None
        }
    }

    /// The themes to upgrade: the installed ones of every registry but the local ones,
    /// in the order of the registries, each with its source. An empty list means that
    /// none is installed.
    pub fn exec(&self, config: &Config) -> (r: Vec<Theme>)
        ensures
            theme_views(r@) == installed(config@.repos, true),
    {
        installed_themes(config, true)
    }
}

} // verus!
