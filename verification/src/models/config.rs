//! Registries of themes, and their reconciliation with what is installed.

use crate::errors::{LeftError, LeftErrorKind};
use crate::models::laws::{
    all_unique, compare_keeps_names_unique, entering_keeps_names_unique, lemma_upsert_unique,
    local_exclusive, local_sync_keeps_local_exclusive, local_sync_keeps_names_unique,
};
use crate::models::paths;
use crate::models::paths::{path_file_name, path_join};
use crate::models::probe::{contains_name, entry_views, texts, DirEntry, DirEntryView};
use crate::models::theme::{
    clone_dependencies, fresh_theme, text, theme_views, TempThemes, Theme, ThemeView,
};
use vstd::prelude::*;

verus! {

/// The directory, under the configuration directory, that holds the installed themes.
pub const THEMES_DIR: &'static str = "themes";

/// The entry of the themes directory that links to the active theme.
pub const CURRENT_DIR: &'static str = "current";

/// The registry of themes that exist on this machine only.
pub const LOCAL_REPO_NAME: &'static str = "LOCAL";

/// The registry of themes that the community maintains.
pub const COMMUNITY_REPO_NAME: &'static str = "community";

/// The newest layout of a registry's theme entries that this library understands.
pub const CURRENT_DEFINITIONS_VERSION: i16 = 1;

/// A registry: a named source of themes.
#[derive(Debug)]
pub struct Repo {
    pub url: String,
    pub name: String,
    pub definitions_version: i16,
    pub themes: Vec<Theme>,
}

/// What a [`Repo`] holds.
pub struct RepoView {
    pub url: Seq<char>,
    pub name: Seq<char>,
    pub definitions_version: i16,
    pub themes: Seq<ThemeView>,
}

impl View for Repo {
    type V = RepoView;

    open spec fn view(&self) -> RepoView {
        RepoView {
            url: self.url@,
            name: self.name@,
            definitions_version: self.definitions_version,
            themes: theme_views(self.themes@),
        }
    }
}

/// Whether a list of themes holds one of the given name.
pub open spec fn has_name(themes: Seq<ThemeView>, name: Seq<char>) -> bool {
    exists|i: int| 0 <= i < themes.len() && #[trigger] themes[i].name == name
}

/// Whether `i` is the place of the first theme of the given name.
pub open spec fn is_first(themes: Seq<ThemeView>, name: Seq<char>, i: int) -> bool {
    &&& 0 <= i < themes.len()
    &&& themes[i].name == name
    &&& forall|k: int| 0 <= k < i ==> #[trigger] themes[k].name != name
}

/// The place of the first theme of the given name, where there is one.
pub open spec fn position(themes: Seq<ThemeView>, name: Seq<char>) -> int {
    choose|i: int| is_first(themes, name, i)
}

/// A known theme brought up to date with a fresh record of it: everything that a registry
/// publishes, and the directory, comes from the record; the name, the mark of the active
/// theme and the source stay.
pub open spec fn merge(known: ThemeView, fresh: ThemeView) -> ThemeView {
    ThemeView {
        name: known.name,
        current: known.current,
        source: known.source,
        ..fresh
    }
}

/// A list of themes after one record is brought in: the first theme of that name is
/// brought up to date, or else the record is added at the end.
pub open spec fn upsert(themes: Seq<ThemeView>, fresh: ThemeView) -> Seq<ThemeView> {
    if has_name(themes, fresh.name) {
        let i = position(themes, fresh.name);
        themes.update(i, merge(themes[i], fresh))
    } else {
        themes.push(fresh)
    }
}

/// A list of themes after a batch of records is brought in, one after the other.
pub open spec fn upsert_all(themes: Seq<ThemeView>, batch: Seq<ThemeView>) -> Seq<ThemeView>
    decreases batch.len(),
{
    if batch.len() == 0 {
        themes
    } else {
        upsert(upsert_all(themes, batch.drop_last()), batch.last())
    }
}

/// No two themes of the list have the same name.
pub open spec fn unique_names(themes: Seq<ThemeView>) -> bool {
    forall|i: int, j: int|
        0 <= i < themes.len() && 0 <= j < themes.len() && i != j ==> #[trigger] themes[i].name
            != #[trigger] themes[j].name
}

/// The first theme of a name is found where `is_first` says, and nowhere else.
pub proof fn lemma_position(themes: Seq<ThemeView>, name: Seq<char>, i: int)
    requires
        is_first(themes, name, i),
    ensures
        has_name(themes, name),
        position(themes, name) == i,
{
    let j = position(themes, name);
    assert(is_first(themes, name, j));
    if j < i {
        assert(themes[j].name != name);
    }
    if i < j {
        assert(themes[i].name != name);
    }
}

/// A list that holds a name has a first theme of that name.
pub proof fn lemma_has_first(themes: Seq<ThemeView>, name: Seq<char>)
    requires
        has_name(themes, name),
    ensures
        is_first(themes, name, position(themes, name)),
{
    let w = choose|i: int| 0 <= i < themes.len() && #[trigger] themes[i].name == name;
    lemma_first_upto(themes, name, w);
}

/// Below a theme of the wanted name stands the first of that name.
proof fn lemma_first_upto(themes: Seq<ThemeView>, name: Seq<char>, w: int)
    requires
        0 <= w < themes.len(),
        themes[w].name == name,
    ensures
        is_first(themes, name, position(themes, name)),
        position(themes, name) <= w,
    decreases w,
{
    if exists|k: int| 0 <= k < w && #[trigger] themes[k].name == name {
        let k = choose|k: int| 0 <= k < w && #[trigger] themes[k].name == name;
        lemma_first_upto(themes, name, k);
    } else {
        assert(is_first(themes, name, w));
        lemma_position(themes, name, w);
    }
}

/// Whether an entry of the themes directory is an installed theme: a directory, once
/// links are followed, and not the entry named `current`.
pub open spec fn is_theme_dir(e: DirEntryView) -> bool {
    e.is_dir && e.name != CURRENT_DIR@
}

/// The names of the installed themes, in the order of the listing.
pub open spec fn installed_names(entries: Seq<DirEntryView>) -> Seq<Seq<char>> {
    entries.filter(|e: DirEntryView| is_theme_dir(e)).map_values(|e: DirEntryView| e.name)
}

/// Whether `i` is the place of the first entry named `current`.
pub open spec fn is_current_entry(entries: Seq<DirEntryView>, i: int) -> bool {
    &&& 0 <= i < entries.len()
    &&& entries[i].name == CURRENT_DIR@
    &&& forall|k: int| 0 <= k < i ==> (#[trigger] entries[k]).name != CURRENT_DIR@
}

/// The theme that a link's target names: the target's last component, unless it is empty.
pub open spec fn target_theme(file_name: Option<Seq<char>>) -> Option<Seq<char>> {
    match file_name {
        Some(n) => if n.len() > 0 {
            Some(n)
        } else {
            None
        },
        None => None,
    }
}

/// The theme that an entry named `current` makes the active one: none unless the entry
/// is a symbolic link.
pub open spec fn linked_theme(e: DirEntryView) -> Option<Seq<char>> {
    match e.link_target {
        Some(target) => target_theme(path_file_name(target)),
        None => None,
    }
}

/// The name of the active theme, as the first entry named `current` gives it.
pub open spec fn current_name(entries: Seq<DirEntryView>) -> Option<Seq<char>> {
    if exists|i: int| is_current_entry(entries, i) {
        linked_theme(entries[choose|i: int| is_current_entry(entries, i)])
    } else {
        None
    }
}

/// A record with what was observed of its theme: where it is installed, if it is, and
/// that it is the active theme, if it is.
pub open spec fn observed(t: ThemeView, directory: Option<Seq<char>>, is_current: bool)
    -> ThemeView {
    ThemeView {
        directory: if directory.is_some() {
            directory
        } else {
            t.directory
        },
        current: if is_current {
            Some(true)
        } else {
            t.current
        },
        ..t
    }
}

/// A record with what the themes directory shows of its theme.
pub open spec fn annotate(
    t: ThemeView,
    installed: Seq<Seq<char>>,
    current: Option<Seq<char>>,
    themes_dir: Seq<char>,
) -> ThemeView {
    observed(
        t,
        if installed.contains(t.name) {
            Some(path_join(themes_dir, t.name))
        } else {
            None
        },
        current == Some(t.name),
    )
}

/// Each record of a batch with what the themes directory shows of its theme.
pub open spec fn annotate_all(
    batch: Seq<ThemeView>,
    installed: Seq<Seq<char>>,
    current: Option<Seq<char>>,
    themes_dir: Seq<char>,
) -> Seq<ThemeView> {
    batch.map_values(|t: ThemeView| annotate(t, installed, current, themes_dir))
}

/// Whether a registry or a batch is laid out in a way that this library does not know yet.
pub open spec fn out_of_date(stored: i16, incoming: i16) -> bool {
    stored > CURRENT_DEFINITIONS_VERSION || incoming > CURRENT_DEFINITIONS_VERSION
}

/// A registry's themes after a batch is reconciled with them, given the configuration
/// directory and the listing of its themes directory.
pub open spec fn reconciled(
    themes: Seq<ThemeView>,
    batch: Seq<ThemeView>,
    config_dir: Seq<char>,
    entries: Seq<DirEntryView>,
) -> Seq<ThemeView> {
    upsert_all(
        themes,
        annotate_all(
            batch,
            installed_names(entries),
            current_name(entries),
            path_join(config_dir, THEMES_DIR@),
        ),
    )
}

/// A registry after [`Repo::compare`]: untouched where a layout is too new, and else
/// with the batch reconciled.
pub open spec fn compared(
    repo: RepoView,
    batch: Seq<ThemeView>,
    batch_version: i16,
    config_dir: Seq<char>,
    entries: Seq<DirEntryView>,
) -> RepoView {
    if out_of_date(repo.definitions_version, batch_version) {
        repo
    } else {
        RepoView { themes: reconciled(repo.themes, batch, config_dir, entries), ..repo }
    }
}

impl Theme {
    /// A copy of the record with what was observed of its theme: the directory where it
    /// is installed, if one is given, and the mark of the active theme, if it is that.
    pub fn observed(&self, directory: Option<String>, is_current: bool) -> (r: Theme)
        ensures
            r@ == observed(self@, text(directory), is_current),
    {
        let mut r = self.clone();
        if directory.is_some() {
            r.directory = directory;
        }
        if is_current {
            r.current = Some(true);
        }
        r
    }
}

impl Repo {
    /// The names of the installed themes, in the order of the listing: every entry of
    /// the themes directory that is a directory, but for the entry named `current`. A
    /// link to a directory counts as a directory; a plain file does not.
    pub fn installed_themes(entries: &Vec<DirEntry>) -> (r: Vec<String>)
        ensures
            texts(r@) == installed_names(entry_views(entries@)),
    {
        let current_dir = CURRENT_DIR.to_string();
        let mut result: Vec<String> = Vec::new();
        let ghost all = entry_views(entries@);
        let ghost pred = |e: DirEntryView| is_theme_dir(e);
        let ghost name_of = |e: DirEntryView| e.name;
        let mut i: usize = 0;
        proof {
            reveal(Seq::filter);
            assert(all.take(0).filter(pred).map_values(name_of) =~= texts(result@));
        }
        while i < entries.len()
            invariant
                i <= entries.len(),
                all == entry_views(entries@),
                current_dir@ == CURRENT_DIR@,
                pred == |e: DirEntryView| is_theme_dir(e),
                name_of == |e: DirEntryView| e.name,
                texts(result@) == all.take(i as int).filter(pred).map_values(name_of),
            decreases entries.len() - i,
        {
            let entry = &entries[i];
            proof {
                reveal(Seq::filter);
                assert(all.take(i + 1).drop_last() =~= all.take(i as int));
                assert(all.take(i + 1).last() == entry@);
            }
            if entry.is_dir && !(entry.name == current_dir) {
                let ghost before = texts(result@);
                result.push(entry.name.clone());
                assert(texts(result@) =~= before.push(entry@.name));
                assert(all.take(i + 1).filter(pred).map_values(name_of) =~= all.take(
                    i as int,
                ).filter(pred).map_values(name_of).push(entry@.name));
            }
            i += 1;
        }
        assert(all.take(entries.len() as int) =~= all);
        result
    }

    /// The theme that the last component of a link's target names; none where the
    /// target has no such component or an empty one.
    pub fn target_theme(file_name: Option<String>) -> (r: Option<String>)
        ensures
            text(r) == target_theme(text(file_name)),
    {
        match file_name {
            Some(n) => {
                if n.as_str().is_empty() {
                    None
                } else {
                    Some(n)
                }
            },
            None => None,
        }
    }

    /// The name of the active theme: what the first entry named `current` links to, if
    /// it is a symbolic link. A listing without such an entry, or with a file or a
    /// directory of that name, has no active theme.
    pub fn current_theme(entries: &Vec<DirEntry>) -> (r: Option<String>)
        ensures
            text(r) == current_name(entry_views(entries@)),
    {
        let current_dir = CURRENT_DIR.to_string();
        let ghost all = entry_views(entries@);
        let mut i: usize = 0;
        while i < entries.len()
            invariant
                i <= entries.len(),
                all == entry_views(entries@),
                current_dir@ == CURRENT_DIR@,
                forall|k: int| 0 <= k < i ==> (#[trigger] all[k]).name != CURRENT_DIR@,
            decreases entries.len() - i,
        {
            let entry = &entries[i];
            if entry.name == current_dir {
                proof {
                    assert(is_current_entry(all, i as int));
                    let j = choose|j: int| is_current_entry(all, j);
                    if j < i {
                        assert(all[j].name != CURRENT_DIR@);
                    }
                    if i < j {
                        assert(all[i as int].name != CURRENT_DIR@);
                    }
                }
                return match &entry.link_target {
                    Some(target) => Repo::target_theme(paths::file_name(target.as_str())),
                    None => None,
                };
            }
            i += 1;
        }
        proof {
            if exists|j: int| is_current_entry(all, j) {
                let j = choose|j: int| is_current_entry(all, j);
                assert(all[j].name != CURRENT_DIR@);
            }
        }
        None
    }

    /// Reconciles a freshly fetched batch with the registry, given the configuration
    /// directory and the listing of its themes directory. Each record gets the directory
    /// of its theme, if the theme is installed, and the mark of the active theme, if it is
    /// that one; then it is brought into the registry, in the order of the batch. No theme
    /// leaves the registry. Where the registry or the batch is laid out in a way that is
    /// newer than this library knows, nothing is changed.
    pub fn compare(
        &mut self,
        theme_wrap: TempThemes,
        config_dir: &str,
        entries: &Vec<DirEntry>,
    ) -> (r: Result<(), LeftError>)
        ensures
            final(self)@ == compared(
                old(self)@,
                theme_views(theme_wrap.theme@),
                theme_wrap.definitions_version,
                config_dir@,
                entry_views(entries@),
            ),
            out_of_date(old(self).definitions_version, theme_wrap.definitions_version)
                ==> *final(self) == *old(self),
            r is Err <==> out_of_date(
                old(self).definitions_version,
                theme_wrap.definitions_version,
            ),
            r is Err ==> r->Err_0.inner is DefinitionsOutOfDate,
            unique_names(old(self)@.themes) ==> unique_names(final(self)@.themes),
    {
        proof {
            if unique_names(self@.themes) {
                compare_keeps_names_unique(
                    self@,
                    theme_views(theme_wrap.theme@),
                    theme_wrap.definitions_version,
                    config_dir@,
                    entry_views(entries@),
                );
            }
        }
        if self.definitions_version > CURRENT_DEFINITIONS_VERSION
            || theme_wrap.definitions_version > CURRENT_DEFINITIONS_VERSION {
            return Err(LeftError { inner: LeftErrorKind::DefinitionsOutOfDate });
        }
        let existing_themes = Repo::installed_themes(entries);
        let current_theme = Repo::current_theme(entries);
        let themes_dir = paths::join(config_dir, THEMES_DIR);
        let ghost batch = annotate_all(
            theme_views(theme_wrap.theme@),
            installed_names(entry_views(entries@)),
            current_name(entry_views(entries@)),
            path_join(config_dir@, THEMES_DIR@),
        );
        let mut i: usize = 0;
        while i < theme_wrap.theme.len()
            invariant
                i <= theme_wrap.theme.len(),
                texts(existing_themes@) == installed_names(entry_views(entries@)),
                text(current_theme) == current_name(entry_views(entries@)),
                themes_dir@ == path_join(config_dir@, THEMES_DIR@),
                batch == annotate_all(
                    theme_views(theme_wrap.theme@),
                    installed_names(entry_views(entries@)),
                    current_name(entry_views(entries@)),
                    path_join(config_dir@, THEMES_DIR@),
                ),
                self@ == (RepoView {
                    themes: upsert_all(old(self)@.themes, batch.take(i as int)),
                    ..old(self)@
                }),
            decreases theme_wrap.theme.len() - i,
        {
            let tema = &theme_wrap.theme[i];
            let directory = if contains_name(&existing_themes, &tema.name) {
                Some(paths::join(themes_dir.as_str(), tema.name.as_str()))
            } else {
                None
            };
            let is_current = match &current_theme {
                Some(name) => *name == tema.name,
                None => false,
            };
            let seen = tema.observed(directory, is_current);
            proof {
                assert(seen@ == batch[i as int]);
                assert(batch.take(i + 1).drop_last() =~= batch.take(i as int));
                assert(batch.take(i + 1).last() == batch[i as int]);
            }
            Repo::update_or_append(self, &seen);
            i += 1;
        }
        assert(batch.take(theme_wrap.theme.len() as int) =~= batch);
        Ok(())
    }
    /// Brings one record into the registry: the first theme of its name takes over what
    /// the record says, or else the record is added at the end.
    pub fn update_or_append(repo: &mut Self, theme: &Theme)
        ensures
            final(repo)@ == (RepoView { themes: upsert(old(repo)@.themes, theme@), ..old(repo)@ }),
            unique_names(old(repo)@.themes) ==> unique_names(final(repo)@.themes),
    {
        proof {
            if unique_names(repo@.themes) {
                lemma_upsert_unique(repo@.themes, theme@);
            }
        }
        let mut i: usize = 0;
        while i < repo.themes.len() && !(repo.themes[i].name == theme.name)
            invariant
                i <= repo.themes.len(),
                *repo == *old(repo),
                forall|k: int| 0 <= k < i ==> (#[trigger] repo.themes[k])@.name != theme@.name,
            decreases repo.themes.len() - i,
        {
            i += 1;
        }
        let ghost before = theme_views(repo.themes@);
        if i < repo.themes.len() {
            proof {
                assert(is_first(before, theme@.name, i as int));
                lemma_position(before, theme@.name, i as int);
            }
            let known = &repo.themes[i];
            let merged = Theme {
                name: known.name.clone(),
                description: theme.description.clone(),
                directory: theme.directory.clone(),
                repository: theme.repository.clone(),
                commit: theme.commit.clone(),
                version: theme.version.clone(),
                leftwm_versions: theme.leftwm_versions.clone(),
                current: known.current,
                dependencies: clone_dependencies(&theme.dependencies),
                relative_directory: theme.relative_directory.clone(),
                support_url: theme.support_url.clone(),
                source: known.source.clone(),
            };
            repo.themes.set(i, merged);
            assert(theme_views(repo.themes@) =~= before.update(i as int, merge(before[i as int], theme@)));
        } else {
            proof {
                if has_name(before, theme@.name) {
                    let w = choose|w: int| 0 <= w < before.len() && #[trigger] before[w].name == theme@.name;
                    assert(repo.themes[w]@.name != theme@.name);
                }
            }
            repo.themes.push(theme.clone());
            assert(theme_views(repo.themes@) =~= before.push(theme@));
        }
    }
}

impl Clone for Repo {
    fn clone(&self) -> (r: Self)
        ensures
            r@ == self@,
    {
        let mut themes: Vec<Theme> = Vec::new();
        let mut i: usize = 0;
        while i < self.themes.len()
            invariant
                i <= self.themes.len(),
                themes.len() == i,
                forall|k: int| 0 <= k < i ==> (#[trigger] themes[k])@ == self.themes[k]@,
            decreases self.themes.len() - i,
        {
            themes.push(self.themes[i].clone());
            i += 1;
        }
        assert(theme_views(themes@) =~= theme_views(self.themes@));
        Repo {
            url: self.url.clone(),
            name: self.name.clone(),
            definitions_version: self.definitions_version,
            themes,
        }
    }
}

impl Default for Repo {
    fn default() -> (r: Repo)
        ensures
            r@ == (RepoView {
                url: Seq::empty(),
                name: Seq::empty(),
                definitions_version: 0,
                themes: Seq::empty(),
            }),
    {
        let r = Repo {
            url: String::new(),
            name: String::new(),
            definitions_version: 0,
            themes: Vec::new(),
        };
        assert(theme_views(r.themes@) =~= Seq::empty());
        r
    }
}

/// The registries and the directory that holds what is persisted of them.
#[derive(Debug)]
pub struct Config {
    pub repos: Vec<Repo>,
    pub config_dir: Option<String>,
}

/// What a [`Config`] holds.
pub struct ConfigView {
    pub repos: Seq<RepoView>,
    pub config_dir: Option<Seq<char>>,
}

/// The registries of a list, each by what it holds.
pub open spec fn repo_views(repos: Seq<Repo>) -> Seq<RepoView> {
    repos.map_values(|r: Repo| r@)
}

impl View for Config {
    type V = ConfigView;

    open spec fn view(&self) -> ConfigView {
        ConfigView { repos: repo_views(self.repos@), config_dir: text(self.config_dir) }
    }
}

impl Clone for Config {
    fn clone(&self) -> (r: Self)
        ensures
            r@ == self@,
    {
        let mut repos: Vec<Repo> = Vec::new();
        let mut i: usize = 0;
        while i < self.repos.len()
            invariant
                i <= self.repos.len(),
                repos.len() == i,
                forall|k: int| 0 <= k < i ==> (#[trigger] repos[k])@ == self.repos[k]@,
            decreases self.repos.len() - i,
        {
            repos.push(self.repos[i].clone());
            i += 1;
        }
        assert(repo_views(repos@) =~= repo_views(self.repos@));
        Config { repos, config_dir: self.config_dir.clone() }
    }
}

/// Where the community's registry is published.
pub const COMMUNITY_REPO_URL: &'static str =
    "https://raw.githubusercontent.com/leftwm/leftwm-community-themes/master/known.toml";

/// The address that stands for this machine in the local registry.
pub const LOCAL_REPO_URL: &'static str = "localhost";

/// The community's registry, before anything was fetched from it.
pub open spec fn community_repo() -> RepoView {
    RepoView {
        url: COMMUNITY_REPO_URL@,
        name: COMMUNITY_REPO_NAME@,
        definitions_version: 1,
        themes: Seq::empty(),
    }
}

/// The local registry, before anything was found on this machine.
pub open spec fn local_repo() -> RepoView {
    RepoView {
        url: LOCAL_REPO_URL@,
        name: LOCAL_REPO_NAME@,
        definitions_version: CURRENT_DEFINITIONS_VERSION,
        themes: Seq::empty(),
    }
}

/// Whether a list of registries holds one of the given name.
pub open spec fn has_repo(repos: Seq<RepoView>, name: Seq<char>) -> bool {
    exists|i: int| is_first_repo(repos, name, i)
}

/// Whether `i` is the place of the first registry of the given name.
pub open spec fn is_first_repo(repos: Seq<RepoView>, name: Seq<char>, i: int) -> bool {
    &&& 0 <= i < repos.len()
    &&& repos[i].name == name
    &&& forall|k: int| 0 <= k < i ==> (#[trigger] repos[k]).name != name
}

/// The place of the first registry of the given name, where there is one.
pub open spec fn repo_position(repos: Seq<RepoView>, name: Seq<char>) -> int {
    choose|i: int| is_first_repo(repos, name, i)
}

/// The first registry of a name is found where `is_first_repo` says, and nowhere else.
pub proof fn lemma_repo_position(repos: Seq<RepoView>, name: Seq<char>, i: int)
    requires
        is_first_repo(repos, name, i),
    ensures
        has_repo(repos, name),
        repo_position(repos, name) == i,
{
    let j = repo_position(repos, name);
    assert(is_first_repo(repos, name, j));
    if j < i {
        assert(repos[j].name != name);
    }
    if i < j {
        assert(repos[i].name != name);
    }
}

/// The themes of a registry, each with the registry's name as its source.
pub open spec fn with_source(themes: Seq<ThemeView>, source: Seq<char>) -> Seq<ThemeView> {
    themes.map_values(|t: ThemeView| ThemeView { source: Some(source), ..t })
}

/// The themes of all registries, in order, each with its source; without those of the
/// local registry where `local` is set.
pub open spec fn gathered(repos: Seq<RepoView>, local: bool) -> Seq<ThemeView>
    decreases repos.len(),
{
    if repos.len() == 0 {
        Seq::empty()
    } else {
        let before = gathered(repos.drop_last(), local);
        let repo = repos.last();
        if local && repo.name == LOCAL_REPO_NAME@ {
            before
        } else {
            before + with_source(repo.themes, repo.name)
        }
    }
}

/// Whether a registry other than the local one lists a theme of the given name.
pub open spec fn claimed(repos: Seq<RepoView>, name: Seq<char>) -> bool {
    exists|i: int|
        0 <= i < repos.len() && (#[trigger] repos[i]).name != LOCAL_REPO_NAME@ && has_name(
            repos[i].themes,
            name,
        )
}

/// The installed themes that no registry but the local one lists, in the order of the
/// listing.
pub open spec fn local_names(repos: Seq<RepoView>, entries: Seq<DirEntryView>) -> Seq<Seq<char>> {
    installed_names(entries).filter(|name: Seq<char>| !claimed(repos, name))
}

/// A record for each local theme: its name and its directory, nothing more.
pub open spec fn local_batch(names: Seq<Seq<char>>, themes_dir: Seq<char>) -> Seq<ThemeView> {
    names.map_values(|name: Seq<char>| fresh_theme(name, None, Some(path_join(themes_dir, name))))
}

/// The registries after [`Config::update_local_repo`]: the first registry named `LOCAL`
/// has the local themes reconciled; the others are as they were.
pub open spec fn local_synced(
    repos: Seq<RepoView>,
    config_dir: Seq<char>,
    entries: Seq<DirEntryView>,
) -> Seq<RepoView> {
    if has_repo(repos, LOCAL_REPO_NAME@) {
        let i = repo_position(repos, LOCAL_REPO_NAME@);
        repos.update(
            i,
            compared(
                repos[i],
                local_batch(local_names(repos, entries), path_join(config_dir, THEMES_DIR@)),
                CURRENT_DEFINITIONS_VERSION,
                config_dir,
                entries,
            ),
        )
    } else {
        repos
    }
}

/// Whether the local registry is laid out in a way that this library does not know yet.
pub open spec fn local_out_of_date(repos: Seq<RepoView>) -> bool {
    has_repo(repos, LOCAL_REPO_NAME@) && repos[repo_position(
        repos,
        LOCAL_REPO_NAME@,
    )].definitions_version > CURRENT_DEFINITIONS_VERSION
}

impl Repo {
    /// Whether the registry lists a theme of the given name.
    pub fn has_theme(&self, name: &String) -> (r: bool)
        ensures
            r == has_name(self@.themes, name@),
    {
        let mut i: usize = 0;
        while i < self.themes.len()
            invariant
                i <= self.themes.len(),
                forall|k: int| 0 <= k < i ==> (#[trigger] self@.themes[k]).name != name@,
            decreases self.themes.len() - i,
        {
            if self.themes[i].name == *name {
                assert(self@.themes[i as int].name == name@);
                return true;
            }
            i += 1;
        }
        false
    }
}

impl Config {
    /// Whether a registry other than the local one lists a theme of the given name.
    pub fn claims(&self, name: &String) -> (r: bool)
        ensures
            r == claimed(self@.repos, name@),
    {
        let local_name = LOCAL_REPO_NAME.to_string();
        let mut i: usize = 0;
        while i < self.repos.len()
            invariant
                i <= self.repos.len(),
                local_name@ == LOCAL_REPO_NAME@,
                forall|k: int|
                    0 <= k < i ==> !((#[trigger] self@.repos[k]).name != LOCAL_REPO_NAME@
                        && has_name(self@.repos[k].themes, name@)),
            decreases self.repos.len() - i,
        {
            let repo = &self.repos[i];
            assert(repo@ == self@.repos[i as int]);
            if !(repo.name == local_name) && repo.has_theme(name) {
                return true;
            }
            i += 1;
        }
        false
    }

    /// Brings the local registry in line with the themes directory. Every installed theme
    /// that no other registry lists is reconciled into the first registry named `LOCAL`,
    /// with its directory; a theme that another registry lists never enters it. Fails,
    /// and changes nothing, where the local registry is laid out in a way that is newer
    /// than this library knows. A configuration without a local registry stays as it is.
    pub fn update_local_repo(&mut self, config_dir: &str, entries: &Vec<DirEntry>) -> (r: Result<
        (),
        LeftError,
    >)
        ensures
            final(self)@ == (ConfigView {
                repos: local_synced(old(self)@.repos, config_dir@, entry_views(entries@)),
                ..old(self)@
            }),
            r is Err <==> local_out_of_date(old(self)@.repos),
            r is Err ==> r->Err_0.inner is DefinitionsOutOfDate,
            local_exclusive(old(self)@.repos) ==> local_exclusive(final(self)@.repos),
            all_unique(old(self)@.repos) ==> all_unique(final(self)@.repos),
    {
        proof {
            if local_exclusive(self@.repos) {
                local_sync_keeps_local_exclusive(self@.repos, config_dir@, entry_views(entries@));
            }
            if all_unique(self@.repos) {
                local_sync_keeps_names_unique(self@.repos, config_dir@, entry_views(entries@));
            }
        }
        let existing_themes = Repo::installed_themes(entries);
        let themes_dir = paths::join(config_dir, THEMES_DIR);
        let ghost installed = installed_names(entry_views(entries@));
        let ghost unclaimed = |name: Seq<char>| !claimed(self@.repos, name);
        let ghost record = |name: Seq<char>| fresh_theme(name, None, Some(path_join(themes_dir@, name)));

        let mut batch: Vec<Theme> = Vec::new();
        let mut i: usize = 0;
        proof {
            reveal(Seq::filter);
            assert(installed.take(0).filter(unclaimed).map_values(record) =~= theme_views(batch@));
        }
        while i < existing_themes.len()
            invariant
                i <= existing_themes.len(),
                *self == *old(self),
                installed == texts(existing_themes@),
                unclaimed == |name: Seq<char>| !claimed(self@.repos, name),
                record == |name: Seq<char>| fresh_theme(name, None, Some(path_join(themes_dir@, name))),
                theme_views(batch@) == installed.take(i as int).filter(unclaimed).map_values(record),
            decreases existing_themes.len() - i,
        {
            let name = &existing_themes[i];
            proof {
                reveal(Seq::filter);
                assert(installed.take(i + 1).drop_last() =~= installed.take(i as int));
                assert(installed.take(i + 1).last() == name@);
            }
            if !self.claims(name) {
                let path = paths::join(themes_dir.as_str(), name.as_str());
                let theme = Theme::new(name.as_str(), None, Some(path));
                let ghost before = theme_views(batch@);
                batch.push(theme);
                assert(theme_views(batch@) =~= before.push(record(name@)));
                assert(installed.take(i + 1).filter(unclaimed).map_values(record)
                    =~= installed.take(i as int).filter(unclaimed).map_values(record).push(
                    record(name@),
                ));
            }
            i += 1;
        }
        proof {
            assert(installed.take(existing_themes.len() as int) =~= installed);
            assert(theme_views(batch@) == local_batch(
                local_names(self@.repos, entry_views(entries@)),
                path_join(config_dir@, THEMES_DIR@),
            ));
        }
        let local_temp_themes = TempThemes {
            theme: batch,
            definitions_version: CURRENT_DEFINITIONS_VERSION,
        };

        let local_name = LOCAL_REPO_NAME.to_string();
        let mut k: usize = 0;
        while k < self.repos.len() && !(self.repos[k].name == local_name)
            invariant
                k <= self.repos.len(),
                *self == *old(self),
                local_name@ == LOCAL_REPO_NAME@,
                forall|j: int| 0 <= j < k ==> (#[trigger] self@.repos[j]).name != LOCAL_REPO_NAME@,
            decreases self.repos.len() - k,
        {
            k += 1;
        }
        if k < self.repos.len() {
            proof {
                assert(is_first_repo(self@.repos, LOCAL_REPO_NAME@, k as int));
                lemma_repo_position(self@.repos, LOCAL_REPO_NAME@, k as int);
            }
            let ghost before = self@.repos;
            let r = self.repos[k].compare(local_temp_themes, config_dir, entries);
            assert(self@.repos =~= before.update(k as int, self.repos[k as int]@));
            r
        } else {
            proof {
                if has_repo(self@.repos, LOCAL_REPO_NAME@) {
                    let j = choose|j: int| is_first_repo(self@.repos, LOCAL_REPO_NAME@, j);
                    assert(self@.repos[j].name != LOCAL_REPO_NAME@);
                }
            }
            Ok(())
        }
    }
}

impl Config {
    /// A configuration without registries, kept in the given directory, or in the
    /// platform's own where none is given.
    #[must_use]
    pub fn new(config_path: Option<String>) -> (r: Self)
        ensures
            r@ == (ConfigView { repos: Seq::empty(), config_dir: text(config_path) }),
    {
        let r = Config { repos: Vec::new(), config_dir: config_path };
        assert(repo_views(r.repos@) =~= Seq::empty());
        r
    }

    /// Adds the two registries that every configuration starts with, the community's and
    /// the local one, and returns a copy of the configuration.
    pub fn default(&mut self) -> (r: Self)
        ensures
            final(self)@ == (ConfigView {
                repos: old(self)@.repos.push(community_repo()).push(local_repo()),
                ..old(self)@
            }),
            r@ == final(self)@,
    {
        let community = Repo {
            url: COMMUNITY_REPO_URL.to_string(),
            name: COMMUNITY_REPO_NAME.to_string(),
            definitions_version: 1,
            themes: Vec::new(),
        };
        let local = Repo {
            url: LOCAL_REPO_URL.to_string(),
            name: LOCAL_REPO_NAME.to_string(),
            definitions_version: CURRENT_DEFINITIONS_VERSION,
            themes: Vec::new(),
        };
        proof {
            assert(community@.themes =~= Seq::empty());
            assert(local@.themes =~= Seq::empty());
        }
        self.repos.push(community);
        self.repos.push(local);
        assert(repo_views(self.repos@) =~= repo_views(old(self).repos@).push(
            community_repo(),
        ).push(local_repo()));
        self.clone()
    }

    /// The directory that holds the configuration: the one that the configuration was
    /// made with, or else the platform's, which the caller hands in.
    pub fn get_config_dir(&self, config_home: &str) -> (r: String)
        ensures
            r@ == match self@.config_dir {
                Some(dir) => dir,
                None => config_home@,
            },
    {
        match &self.config_dir {
            Some(path) => path.clone(),
            None => config_home.to_string(),
        }
    }

    /// The themes of all registries, in order, each with the name of its registry as
    /// its source. With `local` set, the local registry is left out.
    pub fn themes(&self, local: bool) -> (r: Vec<Theme>)
        ensures
            theme_views(r@) == gathered(self@.repos, local),
    {
        let local_name = LOCAL_REPO_NAME.to_string();
        let mut themes: Vec<Theme> = Vec::new();
        let ghost all = self@.repos;
        let mut i: usize = 0;
        assert(all.take(0) =~= Seq::empty());
        assert(theme_views(themes@) =~= Seq::empty());
        while i < self.repos.len()
            invariant
                i <= self.repos.len(),
                all == self@.repos,
                local_name@ == LOCAL_REPO_NAME@,
                theme_views(themes@) == gathered(all.take(i as int), local),
            decreases self.repos.len() - i,
        {
            let repo = &self.repos[i];
            proof {
                assert(all.take(i + 1).drop_last() =~= all.take(i as int));
                assert(all.take(i + 1).last() == repo@);
            }
            if !(local && repo.name == local_name) {
                let ghost before = theme_views(themes@);
                let mut j: usize = 0;
                while j < repo.themes.len()
                    invariant
                        j <= repo.themes.len(),
                        theme_views(themes@) == before + with_source(repo@.themes, repo@.name).take(
                            j as int,
                        ),
                    decreases repo.themes.len() - j,
                {
                    let mut theme = repo.themes[j].clone();
                    theme.source = Some(repo.name.clone());
                    let ghost was = theme_views(themes@);
                    themes.push(theme);
                    assert(theme_views(themes@) =~= was.push(theme@));
                    assert(theme_views(themes@) =~= before + with_source(
                        repo@.themes,
                        repo@.name,
                    ).take(j + 1));
                    j += 1;
                }
                assert(with_source(repo@.themes, repo@.name).take(repo.themes.len() as int)
                    =~= with_source(repo@.themes, repo@.name));
            }
            i += 1;
        }
        assert(all.take(self.repos.len() as int) =~= all);
        themes
    }
}

/// A known theme with what a registry publishes taken from a fresh record of it. The
/// directory, the place of the files in the repository, the mark of the active theme and
/// the source stay.
pub open spec fn refresh(known: ThemeView, fresh: ThemeView) -> ThemeView {
    ThemeView {
        repository: fresh.repository,
        description: fresh.description,
        support_url: fresh.support_url,
        commit: fresh.commit,
        version: fresh.version,
        leftwm_versions: fresh.leftwm_versions,
        dependencies: fresh.dependencies,
        ..known
    }
}

/// A list of themes after a record is entered: the first theme of its name is refreshed,
/// or else the record is added at the end.
pub open spec fn entered(themes: Seq<ThemeView>, fresh: ThemeView) -> Seq<ThemeView> {
    if has_name(themes, fresh.name) {
        let j = position(themes, fresh.name);
        themes.update(j, refresh(themes[j], fresh))
    } else {
        themes.push(fresh)
    }
}

/// The registries after a record is entered into the one of the given name: into the
/// first of that name, or else into a new registry of that name and address, added at
/// the end.
pub open spec fn entered_into(
    repos: Seq<RepoView>,
    fresh: ThemeView,
    url: Seq<char>,
    name: Seq<char>,
) -> Seq<RepoView> {
    if has_repo(repos, name) {
        let i = repo_position(repos, name);
        repos.update(i, RepoView { themes: entered(repos[i].themes, fresh), ..repos[i] })
    } else {
        repos.push(
            RepoView {
                url,
                name,
                definitions_version: CURRENT_DEFINITIONS_VERSION,
                themes: seq![fresh],
            },
        )
    }
}

impl Config {
    /// Enters a record into the registry that `repo` names by address and name. The
    /// first theme of the record's name in that registry takes over what a registry
    /// publishes, or else the record is added. A registry that does not exist yet is made.
    pub fn update_or_append(config: &mut Self, theme: &Theme, repo: (&String, &String))
        ensures
            final(config)@ == (ConfigView {
                repos: entered_into(old(config)@.repos, theme@, repo.0@, repo.1@),
                ..old(config)@
            }),
            all_unique(old(config)@.repos) ==> all_unique(final(config)@.repos),
    {
        proof {
            if all_unique(config@.repos) {
                entering_keeps_names_unique(config@.repos, theme@, repo.0@, repo.1@);
            }
        }
        let mut i: usize = 0;
        while i < config.repos.len() && !(config.repos[i].name == *repo.1)
            invariant
                i <= config.repos.len(),
                *config == *old(config),
                forall|k: int| 0 <= k < i ==> (#[trigger] config@.repos[k]).name != repo.1@,
            decreases config.repos.len() - i,
        {
            i += 1;
        }
        let ghost repos = config@.repos;
        if i < config.repos.len() {
            proof {
                assert(is_first_repo(repos, repo.1@, i as int));
                lemma_repo_position(repos, repo.1@, i as int);
            }
            let ghost themes = repos[i as int].themes;
            let mut j: usize = 0;
            while j < config.repos[i].themes.len() && !(config.repos[i].themes[j].name
                == theme.name)
                invariant
                    i < config.repos.len(),
                    j <= config.repos[i as int].themes.len(),
                    *config == *old(config),
                    themes == config@.repos[i as int].themes,
                    forall|k: int| 0 <= k < j ==> (#[trigger] themes[k]).name != theme@.name,
                decreases config.repos[i as int].themes.len() - j,
            {
                j += 1;
            }
            if j < config.repos[i].themes.len() {
                proof {
                    assert(is_first(themes, theme@.name, j as int));
                    lemma_position(themes, theme@.name, j as int);
                }
                let target = &mut config.repos[i].themes[j];
                target.repository = theme.repository.clone();
                target.description = theme.description.clone();
                target.support_url = theme.support_url.clone();
                target.commit = theme.commit.clone();
                target.version = theme.version.clone();
                target.leftwm_versions = theme.leftwm_versions.clone();
                target.dependencies = clone_dependencies(&theme.dependencies);
                proof {
                    assert(config.repos[i as int]@.themes =~= themes.update(
                        j as int,
                        refresh(themes[j as int], theme@),
                    ));
                    assert(config@.repos =~= repos.update(
                        i as int,
                        RepoView { themes: entered(themes, theme@), ..repos[i as int] },
                    ));
                }
            } else {
                proof {
                    if has_name(themes, theme@.name) {
                        let w = choose|w: int|
                            0 <= w < themes.len() && #[trigger] themes[w].name == theme@.name;
                        assert(themes[w].name != theme@.name);
                    }
                }
                config.repos[i].themes.push(theme.clone());
                proof {
                    assert(config.repos[i as int]@.themes =~= themes.push(theme@));
                    assert(config@.repos =~= repos.update(
                        i as int,
                        RepoView { themes: entered(themes, theme@), ..repos[i as int] },
                    ));
                }
            }
        } else {
            proof {
                if has_repo(repos, repo.1@) {
                    let w = choose|w: int| is_first_repo(repos, repo.1@, w);
                    assert(repos[w].name != repo.1@);
                }
            }
            let mut themes: Vec<Theme> = Vec::new();
            themes.push(theme.clone());
            let added = Repo {
                url: repo.0.clone(),
                name: repo.1.clone(),
                themes,
                definitions_version: CURRENT_DEFINITIONS_VERSION,
            };
            proof {
                assert(added@.themes =~= seq![theme@]);
            }
            config.repos.push(added);
            assert(config@.repos =~= repos.push(added@));
        }
    }
}

} // verus!
