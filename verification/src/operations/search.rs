//! Searching the registries for themes by name.

use crate::models::config::{gathered, Config, RepoView};
use crate::models::theme::{theme_views, ThemeView};
use crate::models::Theme;
use fuzzy_matcher::skim::SkimMatcherV2;
use fuzzy_matcher::FuzzyMatcher;
use vstd::prelude::*;

verus! {

/// The arguments of `search`.
#[derive(Debug)]
pub struct Search {
    /// The name to look for.
    pub name: String,
}

/// The score that the skim matcher of `fuzzy_matcher`, as `SkimMatcherV2::default()`
/// makes it, gives to a choice for a pattern; none where the choice does not match.
pub uninterp spec fn skim_score(choice: Seq<char>, pattern: Seq<char>) -> Option<i64>;

/// Calls `FuzzyMatcher::fuzzy_match` on the matcher that `SkimMatcherV2::default()`
/// makes. The score depends on the two texts alone.
#[verifier::external_body]
fn fuzzy_match(choice: &str, pattern: &str) -> (r: Option<i64>)
    ensures
        r == skim_score(choice@, pattern@),
{
    SkimMatcherV2::default().fuzzy_match(choice, pattern)
}

/// Whether a score says that the choice matched.
pub fn is_match(score: Option<i64>) -> (r: bool)
    ensures
        r == score.is_some(),
{
    score.is_some()
}

/// The themes of all registries whose name matches the pattern, in order.
pub open spec fn matching(repos: Seq<RepoView>, pattern: Seq<char>) -> Seq<ThemeView> {
    gathered(repos, false).filter(|t: ThemeView| skim_score(t.name, pattern).is_some())
}

impl Search {
    /// The themes whose name matches the wanted one loosely, in the order of the
    /// registries, each with its source.
    pub fn exec(&self, config: &Config) -> (r: Vec<Theme>)
        ensures
            theme_views(r@) == matching(config@.repos, self.name@),
    {
        let themes = config.themes(false);
        let ghost all = theme_views(themes@);
        let ghost pred = |t: ThemeView| skim_score(t.name, self.name@).is_some();
        let mut found: Vec<Theme> = Vec::new();
        let mut i: usize = 0;
        proof {
            reveal(Seq::filter);
            assert(all.take(0).filter(pred) =~= theme_views(found@));
        }
        while i < themes.len()
            invariant
                i <= themes.len(),
                all == theme_views(themes@),
                pred == |t: ThemeView| skim_score(t.name, self.name@).is_some(),
                theme_views(found@) == all.take(i as int).filter(pred),
            decreases themes.len() - i,
        {
            let theme = &themes[i];
            proof {
                reveal(Seq::filter);
                assert(all.take(i + 1).drop_last() =~= all.take(i as int));
                assert(all.take(i + 1).last() == theme@);
            }
            if Search::fuzzy_matcher_match(theme.name.as_str(), self.name.as_str()) {
                let ghost before = theme_views(found@);
                found.push(theme.clone());
                assert(theme_views(found@) =~= before.push(theme@));
            }
            i += 1;
        }
        assert(all.take(themes.len() as int) =~= all);
        found
    }

    /// Whether the skim matcher finds the pattern `b` in `a`.
    pub fn fuzzy_matcher_match(a: &str, b: &str) -> (r: bool)
        ensures
            r == skim_score(a@, b@).is_some(),
    {
        is_match(fuzzy_match(a, b))
    }
}

} // verus!
