//! A theme's metadata, as a registry lists it.

use crate::models::config::{
    gathered, has_name, has_repo, is_first, is_first_repo, lemma_position, lemma_repo_position,
    position, repo_position, Config, ConfigView, RepoView, THEMES_DIR,
};
use crate::models::paths;
use crate::models::paths::path_join;
use vstd::prelude::*;

verus! {

/// The characters of an optional string.
pub open spec fn text(o: Option<String>) -> Option<Seq<char>> {
    match o {
        Some(s) => Some(s@),
        None => None,
    }
}

/// A program that a theme needs, with an optional hint at the package that ships it.
#[derive(Debug)]
pub struct DependencyL {
    pub program: String,
    pub optional: Option<bool>,
    pub package: Option<String>,
}

/// What a [`DependencyL`] holds.
pub struct DependencyView {
    pub program: Seq<char>,
    pub optional: Option<bool>,
    pub package: Option<Seq<char>>,
}

impl View for DependencyL {
    type V = DependencyView;

    open spec fn view(&self) -> DependencyView {
        DependencyView {
            program: self.program@,
            optional: self.optional,
            package: text(self.package),
        }
    }
}

impl Clone for DependencyL {
    fn clone(&self) -> (r: Self)
        ensures
            r@ == self@,
    {
        DependencyL {
            program: self.program.clone(),
            optional: self.optional,
            package: self.package.clone(),
        }
    }
}

impl Default for DependencyL {
    fn default() -> (r: DependencyL)
        ensures
            r@ == (DependencyView { program: "leftwm"@, optional: None, package: None }),
    {
        DependencyL { program: "leftwm".to_string(), optional: None, package: None }
    }
}

/// The dependencies of a list, each by what it holds.
pub open spec fn dependency_views(deps: Seq<DependencyL>) -> Seq<DependencyView> {
    deps.map_values(|d: DependencyL| d@)
}

/// The dependencies of an optional list.
pub open spec fn optional_dependency_views(deps: Option<Vec<DependencyL>>) -> Option<
    Seq<DependencyView>,
> {
    match deps {
        Some(v) => Some(dependency_views(v@)),
        None => None,
    }
}

/// A copy of a dependency list.
pub fn clone_dependencies(deps: &Option<Vec<DependencyL>>) -> (r: Option<Vec<DependencyL>>)
    ensures
        optional_dependency_views(r) == optional_dependency_views(*deps),
{
    match deps {
        None => None,
        Some(v) => {
            let mut out: Vec<DependencyL> = Vec::new();
            let mut i: usize = 0;
            while i < v.len()
                invariant
                    i <= v.len(),
                    out.len() == i,
                    forall|k: int| 0 <= k < i ==> out[k]@ == v[k]@,
                decreases v.len() - i,
            {
                out.push(v[i].clone());
                i += 1;
            }
            assert(dependency_views(out@) =~= dependency_views(v@));
            Some(out)
        },
    }
}

/// What is known of one theme.
#[derive(Debug)]
pub struct Theme {
    /// The theme's name, by which a registry tells its themes apart.
    pub name: String,
    /// A short description to show in listings.
    pub description: Option<String>,
    /// Where the theme is installed; `None` while it is not.
    pub directory: Option<String>,
    /// The git repository to install the theme from.
    pub repository: Option<String>,
    /// The commit to check out; `*` follows the newest.
    pub commit: Option<String>,
    /// The theme's own version marker.
    pub version: Option<String>,
    /// The LeftWM versions that the theme works with.
    pub leftwm_versions: Option<String>,
    /// Whether the theme is the active one.
    pub current: Option<bool>,
    /// Programs that the theme needs.
    pub dependencies: Option<Vec<DependencyL>>,
    /// Where in its repository the theme's files lie.
    pub relative_directory: Option<String>,
    /// A page that offers help with the theme.
    pub support_url: Option<String>,
    /// The registry that lists the theme; attached when themes are gathered.
    pub source: Option<String>,
}

/// What a [`Theme`] holds.
pub struct ThemeView {
    pub name: Seq<char>,
    pub description: Option<Seq<char>>,
    pub directory: Option<Seq<char>>,
    pub repository: Option<Seq<char>>,
    pub commit: Option<Seq<char>>,
    pub version: Option<Seq<char>>,
    pub leftwm_versions: Option<Seq<char>>,
    pub current: Option<bool>,
    pub dependencies: Option<Seq<DependencyView>>,
    pub relative_directory: Option<Seq<char>>,
    pub support_url: Option<Seq<char>>,
    pub source: Option<Seq<char>>,
}

impl View for Theme {
    type V = ThemeView;

    open spec fn view(&self) -> ThemeView {
        ThemeView {
            name: self.name@,
            description: text(self.description),
            directory: text(self.directory),
            repository: text(self.repository),
            commit: text(self.commit),
            version: text(self.version),
            leftwm_versions: text(self.leftwm_versions),
            current: self.current,
            dependencies: optional_dependency_views(self.dependencies),
            relative_directory: text(self.relative_directory),
            support_url: text(self.support_url),
            source: text(self.source),
        }
    }
}

impl Clone for Theme {
    fn clone(&self) -> (r: Self)
        ensures
            r@ == self@,
    {
        Theme {
            name: self.name.clone(),
            description: self.description.clone(),
            directory: self.directory.clone(),
            repository: self.repository.clone(),
            commit: self.commit.clone(),
            version: self.version.clone(),
            leftwm_versions: self.leftwm_versions.clone(),
            current: self.current,
            dependencies: clone_dependencies(&self.dependencies),
            relative_directory: self.relative_directory.clone(),
            support_url: self.support_url.clone(),
            source: self.source.clone(),
        }
    }
}

/// The themes of a list, each by what it holds.
pub open spec fn theme_views(themes: Seq<Theme>) -> Seq<ThemeView> {
    themes.map_values(|t: Theme| t@)
}

/// A batch of themes as a registry publishes it.
#[derive(Debug)]
pub struct TempThemes {
    pub theme: Vec<Theme>,
    pub definitions_version: i16,
}

/// What a [`TempThemes`] holds.
pub struct BatchView {
    pub themes: Seq<ThemeView>,
    pub definitions_version: i16,
}

impl View for TempThemes {
    type V = BatchView;

    open spec fn view(&self) -> BatchView {
        BatchView {
            themes: theme_views(self.theme@),
            definitions_version: self.definitions_version,
        }
    }
}

/// What an optional batch holds.
pub open spec fn optional_batch_view(batch: Option<TempThemes>) -> Option<BatchView> {
    match batch {
        Some(b) => Some(b@),
        None => None,
    }
}

/// What a theme made by [`Theme::new`] holds.
pub open spec fn fresh_theme(
    name: Seq<char>,
    description: Option<Seq<char>>,
    directory: Option<Seq<char>>,
) -> ThemeView {
    ThemeView {
        name,
        description,
        directory,
        repository: None,
        commit: None,
        version: Some("0.0.0"@),
        leftwm_versions: Some("*"@),
        current: Some(false),
        dependencies: None,
        relative_directory: None,
        support_url: None,
        source: None,
    }
}

impl Theme {
    #[must_use]
    pub fn new(name: &str, description: Option<String>, directory: Option<String>) -> (r: Self)
        ensures
            r@ == fresh_theme(name@, text(description), text(directory)),
    {
        Theme {
            name: name.to_string(),
            description,
            directory,
            repository: None,
            commit: None,
            version: Some("0.0.0".to_string()),
            leftwm_versions: Some("*".to_string()),
            dependencies: None,
            current: Some(false),
            relative_directory: None,
            support_url: None,
            source: None,
        }
    }

    #[must_use]
    pub fn is_installed(&self) -> (r: bool)
        ensures
            r == self@.directory.is_some(),
    {
        self.directory.is_some()
    }

    /// Records the registry that lists the theme, and hands the theme back for further
    /// changes.
    pub fn source(&mut self, name: String) -> (r: &mut Theme)
        ensures
            r@ == (ThemeView { source: Some(name@), ..old(self)@ }),
            *final(self) == *final(r),
    {
        self.source = Some(name);
        self
    }

    /// Sets where in its repository the theme's files lie.
    pub fn set_relative_directory(&mut self, rel_dir: Option<String>)
        ensures
            final(self)@ == (ThemeView { relative_directory: text(rel_dir), ..old(self)@ }),
    {
        self.relative_directory = rel_dir;
    }

    /// Where in its repository the theme's files lie.
    pub fn relative_directory(&self) -> (r: Option<String>)
        ensures
            text(r) == self@.relative_directory,
    {
        self.relative_directory.clone()
    }

    /// Marks the theme as the active one, or clears the mark.
    pub fn current(&mut self, currency: bool)
        ensures
            final(self)@ == (ThemeView {
                current: if currency { Some(true) } else { None },
                ..old(self)@
            }),
    {
        self.current = if currency { Some(true) } else { None };
    }

    /// The description to show in a listing: the theme's own, or a general one where it
    /// has none.
    pub fn description_or_default(&self) -> (r: String)
        ensures
            r@ == match self@.description {
                Some(description) => description,
                None => "A LeftWM theme"@,
            },
    {
        match &self.description {
            Some(description) => description.clone(),
            None => "A LeftWM theme".to_string(),
        }
    }

    /// Whether the theme is marked as the active one.
    pub fn is_current(&self) -> (r: bool)
        ensures
            r == (self@.current == Some(true)),
    {
        match self.current {
            Some(true) => true,
            _ => false,
        }
    }

    /// The commit that the theme is pinned to: none where it names none, or `*`, which
    /// follows the newest.
    pub fn pinned_commit(&self) -> (r: Option<String>)
        ensures
            text(r) == match self@.commit {
                Some(commit) => if commit == "*"@ {
                    None
                } else {
                    Some(commit)
                },
                None => None,
            },
    {
        match &self.commit {
            Some(commit) => {
                if *commit == "*".to_string() {
                    None
                } else {
                    Some(commit.clone())
                }
            },
            None => None,
        }
    }

    /// The name under which the theme is kept on disk.
    pub fn get_name(&self) -> (r: String)
        ensures
            r@ == self@.name,
    {
        self.name.clone()
    }
}


/// What an optional theme holds.
pub open spec fn optional_theme_view(o: Option<Theme>) -> Option<ThemeView> {
    match o {
        Some(t) => Some(t@),
        None => None,
    }
}

/// The first theme of a list, if it has one.
pub open spec fn first_of(themes: Seq<ThemeView>) -> Option<ThemeView> {
    if themes.len() > 0 {
        Some(themes[0])
    } else {
        None
    }
}

/// Whether a theme has the given name and, where only installed themes are wanted, a
/// directory.
pub open spec fn wanted(t: ThemeView, name: Seq<char>, installed_only: bool) -> bool {
    t.name == name && (installed_only ==> t.directory.is_some())
}

/// The themes of a list that have the given name, in order; with `installed_only`, only
/// the installed ones among them.
pub open spec fn all_named(themes: Seq<ThemeView>, name: Seq<char>, installed_only: bool) -> Seq<
    ThemeView,
> {
    themes.filter(|t: ThemeView| wanted(t, name, installed_only))
}

/// The places of a theme in a configuration: the first registry of the given name, and
/// in it the first theme of the given name; none where either is missing.
pub open spec fn located(repos: Seq<RepoView>, name: Seq<char>, repo_name: Seq<char>) -> Option<
    (int, int),
> {
    if has_repo(repos, repo_name) && has_name(repos[repo_position(repos, repo_name)].themes, name) {
        let i = repo_position(repos, repo_name);
        Some((i, position(repos[i].themes, name)))
    } else {
        None
    }
}

/// Where a theme is located, there is a registry of the wanted name, first of that name,
/// and in it a theme of the wanted name, first of that name.
pub proof fn lemma_located(repos: Seq<RepoView>, name: Seq<char>, repo_name: Seq<char>)
    ensures
        located(repos, name, repo_name) matches Some((i, j)) ==> is_first_repo(repos, repo_name, i)
            && is_first(repos[i].themes, name, j),
{
    if has_repo(repos, repo_name) {
        let i = repo_position(repos, repo_name);
        if has_name(repos[i].themes, name) {
            crate::models::config::lemma_has_first(repos[i].themes, name);
        }
    }
}

/// The registries with one theme replaced.
pub open spec fn replaced(repos: Seq<RepoView>, i: int, j: int, theme: ThemeView) -> Seq<
    RepoView,
> {
    repos.update(i, RepoView { themes: repos[i].themes.update(j, theme), ..repos[i] })
}

/// Whether `after` is `before` with one theme replaced by `theme`, and nothing else
/// changed.
pub open spec fn is_replacement(before: Config, after: Config, i: int, j: int, theme: Theme)
    -> bool {
    &&& after.config_dir == before.config_dir
    &&& after.repos@.len() == before.repos@.len()
    &&& forall|k: int| 0 <= k < before.repos@.len() && k != i ==> after.repos@[k] == before.repos@[k]
    &&& after.repos@[i].url == before.repos@[i].url
    &&& after.repos@[i].name == before.repos@[i].name
    &&& after.repos@[i].definitions_version == before.repos@[i].definitions_version
    &&& after.repos@[i].themes@ == before.repos@[i].themes@.update(j, theme)
}

/// To replace one theme of a configuration is to replace what it holds, in what the
/// configuration holds.
pub proof fn lemma_replacement(before: Config, after: Config, i: int, j: int, theme: Theme)
    requires
        0 <= i < before.repos@.len(),
        0 <= j < before.repos@[i].themes@.len(),
        is_replacement(before, after, i, j, theme),
    ensures
        after@ == (ConfigView { repos: replaced(before@.repos, i, j, theme@), ..before@ }),
{
    assert(after.repos@[i]@.themes =~= before.repos@[i]@.themes.update(j, theme@));
    assert(after@.repos =~= replaced(before@.repos, i, j, theme@));
}

impl Theme {
    /// The themes of all registries that have the given name, each with its source, in
    /// the order of the registries; with `installed_only`, only the installed ones.
    fn select(config: &Config, name: &str, installed_only: bool) -> (r: Vec<Theme>)
        ensures
            theme_views(r@) == all_named(gathered(config@.repos, false), name@, installed_only),
    {
        let wanted_name = name.to_string();
        let themes = config.themes(false);
        let ghost all = theme_views(themes@);
        let ghost pred = |t: ThemeView| wanted(t, name@, installed_only);
        let mut found: Vec<Theme> = Vec::new();
        let mut i: usize = 0;
        proof {
            reveal(Seq::filter);
            assert(all.take(0).filter(pred) =~= theme_views(found@));
        }
        while i < themes.len()
            invariant
                i <= themes.len(),
                all == theme_views(themes@),
                wanted_name@ == name@,
                pred == |t: ThemeView| wanted(t, name@, installed_only),
                theme_views(found@) == all.take(i as int).filter(pred),
            decreases themes.len() - i,
        {
            let theme = &themes[i];
            proof {
                reveal(Seq::filter);
                assert(all.take(i + 1).drop_last() =~= all.take(i as int));
                assert(all.take(i + 1).last() == theme@);
            }
            if theme.name == wanted_name && (!installed_only || theme.directory.is_some()) {
                let ghost before = theme_views(found@);
                found.push(theme.clone());
                assert(theme_views(found@) =~= before.push(theme@));
            }
            i += 1;
        }
        assert(all.take(themes.len() as int) =~= all);
        found
    }

    /// The first theme of the given name among those of all registries, with its source.
    pub fn find(config: &Config, name: &str) -> (r: Option<Theme>)
        ensures
            optional_theme_view(r) == first_of(
                all_named(gathered(config@.repos, false), name@, false),
            ),
    {
        let found = Theme::select(config, name, false);
        if found.len() > 0 {
            Some(found[0].clone())
        } else {
            None
        }
    }

    /// The first installed theme of the given name among those of all registries, with
    /// its source.
    pub fn find_installed(config: &Config, name: &str) -> (r: Option<Theme>)
        ensures
            optional_theme_view(r) == first_of(
                all_named(gathered(config@.repos, false), name@, true),
            ),
    {
        let found = Theme::select(config, name, true);
        if found.len() > 0 {
            Some(found[0].clone())
        } else {
            None
        }
    }

    /// All themes of the given name among those of all registries, each with its source.
    pub fn find_all(config: &Config, name: &str) -> (r: Option<Vec<Theme>>)
        ensures
            r matches Some(found) && theme_views(found@) == all_named(
                gathered(config@.repos, false),
                name@,
                false,
            ),
    {
        Some(Theme::select(config, name, false))
    }

    /// The theme of the given name in the registry of the given name, to be changed in
    /// place: the first theme of that name in the first registry of that name.
    pub fn find_mut<'a>(config: &'a mut Config, name: &str, repo_name: &str) -> (r: Option<
        &'a mut Theme,
    >)
        ensures
            match r {
                Some(theme) => located(old(config)@.repos, name@, repo_name@) matches Some(
                    (i, j),
                ) && theme@ == old(config)@.repos[i].themes[j] && final(config)@ == (ConfigView {
                    repos: replaced(old(config)@.repos, i, j, final(theme)@),
                    ..old(config)@
                }),
                None => located(old(config)@.repos, name@, repo_name@).is_none() && *final(config)
                    == *old(config),
            },
    {
        let wanted_repo = repo_name.to_string();
        let wanted_name = name.to_string();
        let ghost repos = config@.repos;
        let mut i: usize = 0;
        while i < config.repos.len() && !(config.repos[i].name == wanted_repo)
            invariant
                i <= config.repos.len(),
                *config == *old(config),
                wanted_repo@ == repo_name@,
                forall|k: int| 0 <= k < i ==> (#[trigger] config@.repos[k]).name != repo_name@,
            decreases config.repos.len() - i,
        {
            i += 1;
        }
        if i >= config.repos.len() {
            proof {
                if has_repo(repos, repo_name@) {
                    let w = choose|w: int| is_first_repo(repos, repo_name@, w);
                    assert(repos[w].name != repo_name@);
                }
            }
            return None;
        }
        proof {
            assert(is_first_repo(repos, repo_name@, i as int));
            lemma_repo_position(repos, repo_name@, i as int);
        }
        let ghost themes = repos[i as int].themes;
        let mut j: usize = 0;
        while j < config.repos[i].themes.len() && !(config.repos[i].themes[j].name == wanted_name)
            invariant
                i < config.repos.len(),
                j <= config.repos[i as int].themes.len(),
                *config == *old(config),
                wanted_name@ == name@,
                themes == config@.repos[i as int].themes,
                forall|k: int| 0 <= k < j ==> (#[trigger] themes[k]).name != name@,
            decreases config.repos[i as int].themes.len() - j,
        {
            j += 1;
        }
        if j >= config.repos[i].themes.len() {
            proof {
                if has_name(themes, name@) {
                    let w = choose|w: int| 0 <= w < themes.len() && #[trigger] themes[w].name == name@;
                    assert(themes[w].name != name@);
                }
            }
            return None;
        }
        proof {
            assert(is_first(themes, name@, j as int));
            lemma_position(themes, name@, j as int);
        }
        proof {
            assert forall|after: Config, theme: Theme| #![trigger after@, theme@]
                is_replacement(*config, after, i as int, j as int, theme) implies after@ == (
                ConfigView { repos: replaced(repos, i as int, j as int, theme@), ..config@ }) by {
                lemma_replacement(*config, after, i as int, j as int, theme);
            }
        }
        Some(&mut config.repos[i].themes[j])
    }

    /// The renaming that the theme asks for before it is reconciled: from the name it
    /// was stored under to the name in effect. No theme asks for one: a theme's name in
    /// effect is the name it is stored under.
    pub fn apply_changes(&self) -> (r: Option<(String, String)>)
        ensures
            r.is_none(),
    {
        let effectual_name = self.get_name();
        if !(self.name == effectual_name) {
            Some((self.name.clone(), effectual_name))
        } else {
            None
        }
    }

    /// The renaming of a theme's directory: from the directory of the old name to that of
    /// the new name, both under the themes directory. Where nothing exists under the old
    /// name, nothing is to be renamed.
    pub fn apply_change_rename_dir(
        old_name: &str,
        new_name: &str,
        config_dir: &str,
        old_exists: bool,
    ) -> (r: Option<(String, String)>)
        ensures
            !old_exists ==> r.is_none(),
            old_exists ==> (r matches Some((from, to)) && from@ == path_join(
                path_join(config_dir@, THEMES_DIR@),
                old_name@,
            ) && to@ == path_join(path_join(config_dir@, THEMES_DIR@), new_name@)),
    {
        if old_exists {
            let themes_dir = paths::join(config_dir, THEMES_DIR);
            let old_theme_dir = paths::join(themes_dir.as_str(), old_name);
            let new_theme_dir = paths::join(themes_dir.as_str(), new_name);
            Some((old_theme_dir, new_theme_dir))
        } else {
            None
        }
    }
}

} // verus!
