//! Fetching the registries and reconciling them with what is installed.

use crate::errors::LeftError;
use crate::models::config::{
    compared, gathered, local_out_of_date, local_synced, out_of_date, Config, ConfigView, Repo,
    RepoView, LOCAL_REPO_NAME,
};
use crate::models::config::unique_names;
use crate::models::laws::{
    all_unique, compare_keeps_names_unique, local_sync_keeps_names_unique,
};
use crate::models::probe::{entry_views, DirEntry, DirEntryView};
use crate::models::theme::{optional_batch_view, theme_views, BatchView, TempThemes, ThemeView};
use crate::models::{LeftWm, Theme};
use crate::operations::apply::{compatible, host_version, is_compatible};
use vstd::prelude::*;

verus! {

/// The arguments of `update`.
#[derive(Debug)]
pub struct Update {
    /// Do not list the themes afterwards.
    pub no_list: bool,
    /// List the themes that do not work with the installed LeftWM too.
    pub incompatible: bool,
}

/// Whether `url::Url::parse` accepts a text as an absolute URL.
pub uninterp spec fn url_parses(text: Seq<char>) -> bool;

/// The scheme that `url::Url::scheme` gives for the URL parsed from a text.
pub uninterp spec fn url_scheme(text: Seq<char>) -> Seq<char>;

/// The path that `url::Url::path` gives for the URL parsed from a text.
pub uninterp spec fn url_path(text: Seq<char>) -> Seq<char>;

/// The serialization that `url::Url::as_str` gives for the URL parsed from a text.
pub uninterp spec fn url_text(text: Seq<char>) -> Seq<char>;

/// Parses a text with `url::Url::parse` and copies what `Url::scheme`, `Url::path` and
/// `Url::as_str` give for the URL, in this order. Fails with the parser's error where the
/// text is no absolute URL. All four depend on the text alone.
#[verifier::external_body]
fn parse_url(text: &str) -> (r: Result<(String, String, String), url::ParseError>)
    ensures
        match r {
            Ok((scheme, path, serialization)) => url_parses(text@) && scheme@ == url_scheme(text@)
                && path@ == url_path(text@) && serialization@ == url_text(text@),
            Err(_) => !url_parses(text@),
        },
{
    let url = url::Url::parse(text)?;
    Ok((url.scheme().to_string(), url.path().to_string(), url.as_str().to_string()))
}

/// Where a registry's themes are fetched from.
#[derive(Debug)]
pub enum Source {
    /// Nowhere: the registry is the local one.
    Local,
    /// A file on this machine, by its path.
    File(String),
    /// A server, by the URL to get.
    Remote(String),
}

/// What a [`Source`] holds.
pub enum SourceView {
    Local,
    File(Seq<char>),
    Remote(Seq<char>),
}

impl View for Source {
    type V = SourceView;

    open spec fn view(&self) -> SourceView {
        match self {
            Source::Local => SourceView::Local,
            Source::File(path) => SourceView::File(path@),
            Source::Remote(url) => SourceView::Remote(url@),
        }
    }
}

/// The scheme of the URLs that name a file on this machine.
pub const FILE_SCHEME: &'static str = "file";

/// Where a URL leads to, given its scheme, its path and its serialization.
pub open spec fn source_of_parts(scheme: Seq<char>, path: Seq<char>, serialization: Seq<char>)
    -> SourceView {
    if scheme == FILE_SCHEME@ {
        SourceView::File(path)
    } else {
        SourceView::Remote(serialization)
    }
}

/// Where a registry's themes are fetched from, where its address is a URL.
pub open spec fn source_of(repo: RepoView) -> SourceView {
    if repo.name == LOCAL_REPO_NAME@ {
        SourceView::Local
    } else {
        source_of_parts(url_scheme(repo.url), url_path(repo.url), url_text(repo.url))
    }
}

/// Whether a registry takes the batch that was fetched for it: the registry at place
/// `i` is not local, and there is a batch for it.
pub open spec fn takes(repos: Seq<RepoView>, fetched: Seq<Option<BatchView>>, i: int) -> bool {
    0 <= i < repos.len() && i < fetched.len() && repos[i].name != LOCAL_REPO_NAME@
        && fetched[i].is_some()
}

/// Whether the registry at place `i` refuses the batch that was fetched for it, as laid
/// out in a way that is too new.
pub open spec fn refuses(repos: Seq<RepoView>, fetched: Seq<Option<BatchView>>, i: int) -> bool {
    takes(repos, fetched, i) && out_of_date(
        repos[i].definitions_version,
        fetched[i].unwrap().definitions_version,
    )
}

/// Whether a registry before place `i` refuses its batch.
pub open spec fn refused_before(repos: Seq<RepoView>, fetched: Seq<Option<BatchView>>, i: int)
    -> bool {
    exists|k: int| 0 <= k < i && refuses(repos, fetched, k)
}

/// The registry at place `i` after the batches were reconciled: with its batch, unless
/// it takes none or an earlier registry refused its own.
pub open spec fn fetched_into(
    repos: Seq<RepoView>,
    fetched: Seq<Option<BatchView>>,
    config_dir: Seq<char>,
    entries: Seq<DirEntryView>,
    i: int,
) -> RepoView {
    if takes(repos, fetched, i) && !refused_before(repos, fetched, i) {
        compared(
            repos[i],
            fetched[i].unwrap().themes,
            fetched[i].unwrap().definitions_version,
            config_dir,
            entries,
        )
    } else {
        repos[i]
    }
}

/// The registries after the batches were reconciled, one registry after the other, up
/// to the first that refuses its batch.
pub open spec fn fetched_in(
    repos: Seq<RepoView>,
    fetched: Seq<Option<BatchView>>,
    config_dir: Seq<char>,
    entries: Seq<DirEntryView>,
) -> Seq<RepoView> {
    Seq::new(repos.len(), |i: int| fetched_into(repos, fetched, config_dir, entries, i))
}

/// The registries after [`Update::update_repos`]: the batches are reconciled, and then
/// the local registry is brought in line with the themes directory, unless a registry
/// refused its batch.
pub open spec fn updated(
    repos: Seq<RepoView>,
    fetched: Seq<Option<BatchView>>,
    config_dir: Seq<char>,
    entries: Seq<DirEntryView>,
) -> Seq<RepoView> {
    if refused_before(repos, fetched, repos.len() as int) {
        fetched_in(repos, fetched, config_dir, entries)
    } else {
        local_synced(fetched_in(repos, fetched, config_dir, entries), config_dir, entries)
    }
}

/// Registries in each of which no two themes share a name are still such after an
/// update, whatever was fetched and wherever the update ended.
pub proof fn update_keeps_names_unique(
    repos: Seq<RepoView>,
    fetched: Seq<Option<BatchView>>,
    config_dir: Seq<char>,
    entries: Seq<DirEntryView>,
)
    requires
        all_unique(repos),
    ensures
        all_unique(fetched_in(repos, fetched, config_dir, entries)),
        all_unique(updated(repos, fetched, config_dir, entries)),
{
    let taken = fetched_in(repos, fetched, config_dir, entries);
    assert forall|i: int| 0 <= i < taken.len() implies unique_names((#[trigger] taken[i]).themes) by {
        assert(unique_names(repos[i].themes));
        if takes(repos, fetched, i) {
            compare_keeps_names_unique(
                repos[i],
                fetched[i].unwrap().themes,
                fetched[i].unwrap().definitions_version,
                config_dir,
                entries,
            );
        }
    }
    local_sync_keeps_names_unique(taken, config_dir, entries);
}

/// The batches of a list, each by what it holds.
pub open spec fn batch_views(fetched: Seq<Option<TempThemes>>) -> Seq<Option<BatchView>> {
    fetched.map_values(|b: Option<TempThemes>| optional_batch_view(b))
}

/// A theme on offer, with whether it works with the installed LeftWM.
#[derive(Debug)]
pub struct Offer {
    pub theme: Theme,
    pub compatible: bool,
}

/// What an [`Offer`] holds.
pub struct OfferView {
    pub theme: ThemeView,
    pub compatible: bool,
}

impl View for Offer {
    type V = OfferView;

    open spec fn view(&self) -> OfferView {
        OfferView { theme: self.theme@, compatible: self.compatible }
    }
}

/// The offers of a list, each by what it holds.
pub open spec fn offer_views(offers: Seq<Offer>) -> Seq<OfferView> {
    offers.map_values(|o: Offer| o@)
}

/// A theme on offer, with whether it works with the installed LeftWM.
pub open spec fn judged(theme: ThemeView, version: Option<Seq<char>>) -> OfferView {
    OfferView { theme, compatible: compatible(theme, version) }
}

/// The themes to list after an update: all that work with the installed LeftWM and,
/// where they are asked for, the others too.
pub open spec fn offers(
    repos: Seq<RepoView>,
    version: Option<Seq<char>>,
    incompatible: bool,
) -> Seq<OfferView> {
    gathered(repos, false).map_values(|t: ThemeView| judged(t, version)).filter(
        |o: OfferView| o.compatible || incompatible,
    )
}

impl Source {
    /// Where a URL leads to, given its scheme, its path and its serialization: to the
    /// file at the path where the scheme is `file`, and else to the URL itself.
    pub fn of_parts(scheme: String, path: String, serialization: String) -> (r: Source)
        ensures
            r@ == source_of_parts(scheme@, path@, serialization@),
    {
        if scheme == FILE_SCHEME.to_string() {
            Source::File(path)
        } else {
            Source::Remote(serialization)
        }
    }
}

impl Update {
    /// Where to fetch a registry's themes from. The local registry is fetched from
    /// nowhere. Fails where the address of another registry is no URL.
    pub fn source(repo: &Repo) -> (r: Result<Source, LeftError>)
        ensures
            match r {
                Ok(source) => (repo@.name == LOCAL_REPO_NAME@ || url_parses(repo@.url))
                    && source@ == source_of(repo@),
                Err(e) => repo@.name != LOCAL_REPO_NAME@ && !url_parses(repo@.url)
                    && e.inner is UrlParseError,
            },
    {
        if repo.name == LOCAL_REPO_NAME.to_string() {
            return Ok(Source::Local);
        }
        match parse_url(repo.url.as_str()) {
            Ok((scheme, path, serialization)) => Ok(Source::of_parts(scheme, path, serialization)),
            Err(err) => Err(LeftError::from(err)),
        }
    }

    /// Whether what was fetched for a registry holds a batch to reconcile: an empty body
    /// holds none, and the registry is left as it is.
    pub fn holds_batch(content: &str) -> (r: bool)
        ensures
            r == (content@.len() > 0),
    {
        !content.is_empty()
    }

    /// Reconciles each registry with the batch that was fetched for it, and then the
    /// local registry with the themes directory. `fetched` holds, at the place of each
    /// registry, its batch, or nothing where there was nothing to fetch. The local
    /// registry takes no batch. The first registry that refuses its batch ends the
    /// update with its failure: the registries before it have taken theirs, the others
    /// are untouched.
    pub fn update_repos(
        config: &mut Config,
        fetched: Vec<Option<TempThemes>>,
        config_dir: &str,
        entries: &Vec<DirEntry>,
    ) -> (r: Result<(), LeftError>)
        ensures
            final(config)@ == (ConfigView {
                repos: updated(
                    old(config)@.repos,
                    batch_views(fetched@),
                    config_dir@,
                    entry_views(entries@),
                ),
                ..old(config)@
            }),
            r.is_err() <==> refused_before(
                old(config)@.repos,
                batch_views(fetched@),
                old(config)@.repos.len() as int,
            ) || local_out_of_date(
                fetched_in(
                    old(config)@.repos,
                    batch_views(fetched@),
                    config_dir@,
                    entry_views(entries@),
                ),
            ),
            r matches Err(e) ==> e.inner is DefinitionsOutOfDate,
            all_unique(old(config)@.repos) ==> all_unique(final(config)@.repos),
    {
        proof {
            if all_unique(config@.repos) {
                update_keeps_names_unique(
                    config@.repos,
                    batch_views(fetched@),
                    config_dir@,
                    entry_views(entries@),
                );
            }
        }
        let ghost batches = batch_views(fetched@);
        let mut pending = fetched;
        let ghost before = config@.repos;
        let ghost listing = entry_views(entries@);
        let local_name = LOCAL_REPO_NAME.to_string();
        let mut i: usize = 0;
        while i < config.repos.len()
            invariant
                i <= config.repos.len(),
                config.repos.len() == before.len(),
                config.config_dir == old(config).config_dir,
                before == old(config)@.repos,
                listing == entry_views(entries@),
                local_name@ == LOCAL_REPO_NAME@,
                pending.len() == batches.len(),
                batches == batch_views(fetched@),
                !refused_before(before, batches, i as int),
                forall|k: int| i <= k < pending.len() ==> optional_batch_view(#[trigger] pending[k]) == batches[k],
                forall|k: int| 0 <= k < i ==> (#[trigger] config.repos[k])@ == fetched_into(before, batches, config_dir@, listing, k),
                forall|k: int| i <= k < config.repos.len() ==> (#[trigger] config.repos[k])@ == before[k],
            decreases config.repos.len() - i,
        {
            if !(config.repos[i].name == local_name) && i < pending.len() {
                let batch = pending[i].take();
                match batch {
                    Some(theme_wrap) => {
                        assert(takes(before, batches, i as int));
                        let outcome = config.repos[i].compare(theme_wrap, config_dir, entries);
                        if outcome.is_err() {
                            proof {
                                assert(refuses(before, batches, i as int));
                                assert(refused_before(before, batches, before.len() as int));
                                assert forall|k: int| i < k < before.len() implies fetched_into(
                                    before,
                                    batches,
                                    config_dir@,
                                    listing,
                                    k,
                                ) == before[k] by {
                                    assert(refused_before(before, batches, k));
                                }
                                assert(config@.repos =~= fetched_in(
                                    before,
                                    batches,
                                    config_dir@,
                                    listing,
                                ));
                                if all_unique(before) {
                                    update_keeps_names_unique(
                                        before,
                                        batches,
                                        config_dir@,
                                        listing,
                                    );
                                }
                            }
                            return outcome;
                        }
                        assert(!refuses(before, batches, i as int));
                    },
                    None => {},
                }
            }
            assert(!refused_before(before, batches, i + 1)) by {
                if refused_before(before, batches, i + 1) {
                    let k = choose|k: int| 0 <= k < i + 1 && refuses(before, batches, k);
                    assert(k == i);
                }
            }
            i += 1;
        }
        assert(config@.repos =~= fetched_in(before, batches, config_dir@, listing));
        config.update_local_repo(config_dir, entries)
    }

    /// The themes to list after an update, in the order of the registries, each with
    /// its source and with whether it works with the installed LeftWM. A theme that does
    /// not is listed only where the arguments ask for it. Nothing is listed where they
    /// ask for no list.
    pub fn exec(&self, config: &Config, lwmv: &Option<LeftWm>) -> (r: Vec<Offer>)
        ensures
            offer_views(r@) == if self.no_list {
                Seq::<OfferView>::empty()
            } else {
                offers(config@.repos, host_version(*lwmv), self.incompatible)
            },
    {
        let mut found: Vec<Offer> = Vec::new();
        if self.no_list {
            assert(offer_views(found@) =~= Seq::<OfferView>::empty());
            return found;
        }
        let themes = config.themes(false);
        let ghost judge = |t: ThemeView| judged(t, host_version(*lwmv));
        let ghost all = theme_views(themes@).map_values(judge);
        let ghost pred = |o: OfferView| o.compatible || self.incompatible;
        let mut i: usize = 0;
        proof {
            reveal(Seq::filter);
            assert(all.take(0).filter(pred) =~= offer_views(found@));
        }
        while i < themes.len()
            invariant
                i <= themes.len(),
                judge == |t: ThemeView| judged(t, host_version(*lwmv)),
                all == theme_views(themes@).map_values(judge),
                pred == |o: OfferView| o.compatible || self.incompatible,
                offer_views(found@) == all.take(i as int).filter(pred),
            decreases themes.len() - i,
        {
            let theme = &themes[i];
            let works = is_compatible(theme, lwmv);
            proof {
                reveal(Seq::filter);
                assert(all.take(i + 1).drop_last() =~= all.take(i as int));
                assert(all.take(i + 1).last() == judge(theme@));
            }
            if works || self.incompatible {
                let ghost was = offer_views(found@);
                let offer = Offer { theme: theme.clone(), compatible: works };
                found.push(offer);
                assert(offer_views(found@) =~= was.push(judge(theme@)));
            }
            i += 1;
        }
        assert(all.take(themes.len() as int) =~= all);
        found
    }
}

} // verus!
