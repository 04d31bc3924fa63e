//! Making an installed theme the active one.

use crate::errors::{friendly_message, is_friendly, LeftError};
use crate::models::config::{Config, ConfigView, RepoView};
use crate::models::theme::{
    all_named, first_of, lemma_located, located, replaced, DependencyView, ThemeView,
};
use crate::models::config::{
    gathered, has_name, has_repo, is_first, is_first_repo, lemma_has_first, lemma_position,
    lemma_repo_position, position, repo_position,
};
use crate::models::probe::texts;
use crate::models::{LeftWm, Theme};
use crate::utils::versions::{check, requirement_admits, requirement_parses, version_parses};
use vstd::prelude::*;

verus! {

/// The arguments of `apply`.
#[derive(Debug)]
pub struct Apply {
    /// The theme to make the active one.
    pub name: String,
    /// Leave the running LeftWM alone.
    pub no_reset: bool,
    /// Apply the theme even where it does not pass the checks.
    pub override_checks: bool,
}

/// The theme to apply: the first of the wanted name, if it is installed.
pub open spec fn selected(config: ConfigView, name: Seq<char>) -> Option<ThemeView> {
    match first_of(all_named(gathered(config.repos, false), name, false)) {
        Some(theme) => if theme.directory.is_some() {
            Some(theme)
        } else {
            None
        },
        None => None,
    }
}

/// A theme without the mark of the active theme.
pub open spec fn unmarked_theme(theme: ThemeView) -> ThemeView {
    ThemeView { current: Some(false), ..theme }
}

/// A registry in which no theme is marked as the active one.
pub open spec fn unmarked_repo(repo: RepoView) -> RepoView {
    RepoView { themes: repo.themes.map_values(|t: ThemeView| unmarked_theme(t)), ..repo }
}

/// The registries with no theme marked as the active one.
pub open spec fn unmarked(repos: Seq<RepoView>) -> Seq<RepoView> {
    repos.map_values(|r: RepoView| unmarked_repo(r))
}

/// The registries after a theme is applied: no theme is marked as the active one but
/// the theme's record in the registry that it came from, where there is such a record.
pub open spec fn applied(repos: Seq<RepoView>, theme: ThemeView) -> Seq<RepoView> {
    match theme.source {
        Some(source) => match located(unmarked(repos), theme.name, source) {
            Some((i, j)) => replaced(
                unmarked(repos),
                i,
                j,
                ThemeView { current: Some(true), ..unmarked(repos)[i].themes[j] },
            ),
            None => unmarked(repos),
        },
        None => unmarked(repos),
    }
}

/// Whether the registry that a theme came from has no record of it.
pub open spec fn lost(repos: Seq<RepoView>, theme: ThemeView) -> bool {
    theme.source matches Some(source) && located(repos, theme.name, source).is_none()
}

/// To take the mark of the active theme away moves no theme: each is located where it
/// was.
pub proof fn lemma_unmarked_located(repos: Seq<RepoView>, name: Seq<char>, repo_name: Seq<char>)
    ensures
        located(unmarked(repos), name, repo_name) == located(repos, name, repo_name),
{
    let cleared = unmarked(repos);
    assert forall|i: int| is_first_repo(cleared, repo_name, i) == is_first_repo(
        repos,
        repo_name,
        i,
    ) by {
        if is_first_repo(repos, repo_name, i) {
            assert forall|k: int| 0 <= k < i implies (#[trigger] cleared[k]).name != repo_name by {
                assert(repos[k].name != repo_name);
            }
        }
        if is_first_repo(cleared, repo_name, i) {
            assert forall|k: int| 0 <= k < i implies (#[trigger] repos[k]).name != repo_name by {
                assert(cleared[k].name != repo_name);
            }
        }
    }
    if has_repo(repos, repo_name) {
        let p = repo_position(repos, repo_name);
        assert(is_first_repo(cleared, repo_name, p));
        lemma_repo_position(cleared, repo_name, p);
        let before = repos[p].themes;
        let after = cleared[p].themes;
        if has_name(before, name) {
            lemma_has_first(before, name);
            let q = position(before, name);
            assert forall|k: int| 0 <= k < q implies (#[trigger] after[k]).name != name by {
                assert(before[k].name != name);
            }
            assert(is_first(after, name, q));
            lemma_position(after, name, q);
        }
        if has_name(after, name) {
            let w = choose|w: int| 0 <= w < after.len() && #[trigger] after[w].name == name;
            assert(before[w].name == name);
        }
    } else {
        if has_repo(cleared, repo_name) {
            let i = choose|i: int| is_first_repo(cleared, repo_name, i);
            assert(is_first_repo(repos, repo_name, i));
        }
    }
}

/// At most one theme of all registries is marked as the active one.
pub open spec fn at_most_one_current(repos: Seq<RepoView>) -> bool {
    forall|i: int, j: int, k: int, l: int|
        0 <= i < repos.len() && 0 <= j < repos[i].themes.len() && 0 <= k < repos.len() && 0 <= l
            < repos[k].themes.len() && (#[trigger] repos[i].themes[j]).current == Some(true) && (
        #[trigger] repos[k].themes[l]).current == Some(true) ==> i == k && j == l
}

/// Once a theme is applied, at most one theme is marked as the active one, whatever
/// was marked before.
pub proof fn apply_marks_one_theme(repos: Seq<RepoView>, theme: ThemeView)
    ensures
        at_most_one_current(applied(repos, theme)),
{
    let cleared = unmarked(repos);
    let after = applied(repos, theme);
    if theme.source.is_some() {
        lemma_unmarked_located(repos, theme.name, theme.source.unwrap());
    }
    assert forall|i: int, j: int| 0 <= i < cleared.len() && 0 <= j < cleared[i].themes.len() implies (
    #[trigger] cleared[i].themes[j]).current == Some(false) by {}
    assert forall|i: int, j: int, k: int, l: int|
        0 <= i < after.len() && 0 <= j < after[i].themes.len() && 0 <= k < after.len() && 0 <= l
            < after[k].themes.len() && (#[trigger] after[i].themes[j]).current == Some(true) && (
        #[trigger] after[k].themes[l]).current == Some(true) implies i == k && j == l by {
        if lost(repos, theme) || theme.source.is_none() {
            assert(cleared[i].themes[j].current == Some(false));
        } else {
            let (p, q) = located(cleared, theme.name, theme.source.unwrap()).unwrap();
            lemma_located(cleared, theme.name, theme.source.unwrap());
            if i != p || j != q {
                assert(after[i].themes[j] == cleared[i].themes[j]);
            }
            if k != p || l != q {
                assert(after[k].themes[l] == cleared[k].themes[l]);
            }
        }
    }
}

/// The number of themes in the registries before place `i`.
pub open spec fn themes_before(repos: Seq<RepoView>, i: int) -> int
    decreases i,
{
    if i <= 0 {
        0
    } else {
        themes_before(repos, i - 1) + repos[i - 1].themes.len()
    }
}

/// A theme of a registry, with the registry's name as its source.
pub open spec fn sourced(repo: RepoView, j: int) -> ThemeView {
    ThemeView { source: Some(repo.name), ..repo.themes[j] }
}

/// The registries before a place hold no more themes than those before a later place.
pub proof fn lemma_themes_before_grows(repos: Seq<RepoView>, i: int, k: int)
    requires
        0 <= i <= k <= repos.len(),
    ensures
        0 <= themes_before(repos, i) <= themes_before(repos, k),
        i < k ==> themes_before(repos, i) + repos[i].themes.len() <= themes_before(repos, k),
    decreases k,
{
    if i < k {
        lemma_themes_before_grows(repos, i, k - 1);
    } else if i > 0 {
        lemma_themes_before_grows(repos, i - 1, i - 1);
    }
}

/// The themes gathered from the first `n` registries are those of each registry, one
/// registry after the other, each theme with its source.
pub proof fn lemma_gathered(repos: Seq<RepoView>, n: int)
    requires
        0 <= n <= repos.len(),
    ensures
        gathered(repos.take(n), false).len() == themes_before(repos, n),
        forall|i: int, j: int|
            0 <= i < n && 0 <= j < repos[i].themes.len() ==> gathered(repos.take(n), false)[(
            themes_before(repos, i) + j)] == #[trigger] sourced(repos[i], j),
    decreases n,
{
    if n > 0 {
        lemma_gathered(repos, n - 1);
        assert(repos.take(n).drop_last() =~= repos.take(n - 1));
        assert(repos.take(n).last() == repos[n - 1]);
        let before = gathered(repos.take(n - 1), false);
        let all = gathered(repos.take(n), false);
        assert(all == before + crate::models::config::with_source(
            repos[n - 1].themes,
            repos[n - 1].name,
        ));
        assert forall|i: int, j: int| 0 <= i < n && 0 <= j < repos[i].themes.len() implies all[(
        themes_before(repos, i) + j)] == #[trigger] sourced(repos[i], j) by {
            lemma_themes_before_grows(repos, i, n - 1);
            if i < n - 1 {
                assert(before[themes_before(repos, i) + j] == sourced(repos[i], j));
            }
        }
    }
}

/// The registry and the place in it that a gathered theme comes from.
pub proof fn lemma_gathered_from(repos: Seq<RepoView>, n: int, k: int) -> (place: (int, int))
    requires
        0 <= n <= repos.len(),
        0 <= k < themes_before(repos, n),
    ensures
        0 <= place.0 < n,
        0 <= place.1 < repos[place.0].themes.len(),
        k == themes_before(repos, place.0) + place.1,
    decreases n,
{
    if k >= themes_before(repos, n - 1) {
        (n - 1, k - themes_before(repos, n - 1))
    } else {
        lemma_gathered_from(repos, n - 1, k)
    }
}

/// The first of the themes that a filter keeps is the first theme that meets the
/// filter's condition.
pub proof fn lemma_filter_first(themes: Seq<ThemeView>, pred: spec_fn(ThemeView) -> bool) -> (k:
    int)
    requires
        themes.filter(pred).len() > 0,
    ensures
        0 <= k < themes.len(),
        pred(themes[k]),
        themes.filter(pred)[0] == themes[k],
        forall|m: int| 0 <= m < k ==> !pred(#[trigger] themes[m]),
    decreases themes.len(),
{
    reveal(Seq::filter);
    let rest = themes.drop_last();
    if rest.filter(pred).len() > 0 {
        let k = lemma_filter_first(rest, pred);
        assert forall|m: int| 0 <= m < k implies !pred(#[trigger] themes[m]) by {
            assert(themes[m] == rest[m]);
        }
        k
    } else {
        assert forall|m: int| 0 <= m < rest.len() implies !pred(#[trigger] themes[m]) by {
            if pred(rest[m]) {
                rest.lemma_filter_contains(pred, m);
            }
        }
        themes.len() - 1
    }
}

/// Applying a theme marks its record: where the registry that the theme came from lists
/// it, that record is marked as the active one afterwards, and with
/// [`apply_marks_one_theme`] it is the only one.
pub proof fn apply_marks_the_theme(repos: Seq<RepoView>, theme: ThemeView)
    requires
        theme.source.is_some(),
        !lost(repos, theme),
    ensures
        ({
            let (i, j) = located(repos, theme.name, theme.source.unwrap()).unwrap();
            &&& 0 <= i < applied(repos, theme).len()
            &&& 0 <= j < applied(repos, theme)[i].themes.len()
            &&& applied(repos, theme)[i].themes[j].current == Some(true)
            &&& applied(repos, theme)[i].themes[j].name == theme.name
        }),
{
    let source = theme.source.unwrap();
    lemma_unmarked_located(repos, theme.name, source);
    lemma_located(repos, theme.name, source);
    lemma_located(unmarked(repos), theme.name, source);
}

/// The theme to apply is installed, and it is its own record that gets the mark: once
/// the selected theme is applied, a theme that is marked as the active one has the
/// selected theme's directory.
pub proof fn applied_theme_is_installed(config: ConfigView, name: Seq<char>)
    requires
        selected(config, name).is_some(),
        !lost(config.repos, selected(config, name).unwrap()),
    ensures
        forall|i: int, j: int|
            0 <= i < applied(config.repos, selected(config, name).unwrap()).len() && 0 <= j
                < applied(config.repos, selected(config, name).unwrap())[i].themes.len() && (
            #[trigger] applied(
                config.repos,
                selected(config, name).unwrap(),
            )[i].themes[j]).current == Some(true) ==> applied(
                config.repos,
                selected(config, name).unwrap(),
            )[i].themes[j].directory == selected(config, name).unwrap().directory
                && selected(config, name).unwrap().directory.is_some(),
{
    let repos = config.repos;
    let theme = selected(config, name).unwrap();
    let all = gathered(repos, false);
    let pred = |t: ThemeView| crate::models::theme::wanted(t, name, false);
    let k = lemma_filter_first(all, pred);
    assert(repos.take(repos.len() as int) =~= repos);
    lemma_gathered(repos, repos.len() as int);
    let (p, q) = lemma_gathered_from(repos, repos.len() as int, k);
    assert(all[k] == sourced(repos[p], q));
    assert(theme == sourced(repos[p], q));
    let source = repos[p].name;
    // No registry before `p`, and no theme before `q` in it, has the wanted name.
    assert forall|i: int, j: int|
        0 <= i < repos.len() && 0 <= j < repos[i].themes.len() && (i < p || (i == p && j < q))
        implies (#[trigger] repos[i].themes[j]).name != name by {
        lemma_themes_before_grows(repos, i, p);
        let m = themes_before(repos, i) + j;
        assert(0 <= m < k);
        assert(all[m] == sourced(repos[i], j));
        assert(!pred(all[m]));
    }
    lemma_located(repos, name, source);
    let (i0, j0) = located(repos, name, source).unwrap();
    if i0 < p {
        assert(repos[i0].themes[j0].name != name);
    }
    assert(i0 == p);
    if j0 < q {
        assert(repos[p].themes[j0].name != name);
    }
    if q < j0 {
        assert(repos[p].themes[q].name == name);
    }
    assert(j0 == q);
    lemma_unmarked_located(repos, name, source);
    apply_marks_one_theme(repos, theme);
    let after = applied(repos, theme);
    assert(after[p].themes[q].current == Some(true));
    assert(after[p].themes[q].directory == theme.directory);
}

/// The directories that a search path names: its pieces between the colons, an empty
/// piece where two colons meet or the path begins or ends with one.
pub open spec fn path_pieces(path: Seq<char>) -> Seq<Seq<char>>
    decreases path.len(),
{
    if path.len() == 0 {
        seq![Seq::<char>::empty()]
    } else {
        let before = path_pieces(path.drop_last());
        if path.last() == ':' {
            before.push(Seq::<char>::empty())
        } else {
            before.update(before.len() - 1, before.last().push(path.last()))
        }
    }
}

/// Where a program would be, in each directory of a search path.
pub open spec fn candidates(path: Seq<char>, program: Seq<char>) -> Seq<Seq<char>> {
    path_pieces(path).map_values(|dir: Seq<char>| dir + seq!['/'] + program)
}

/// Whether a program can be run, given of each file that [`program_candidates`] names
/// whether it exists: it can where one of them does.
pub fn is_program_in_path(exists: &Vec<bool>) -> (r: bool)
    ensures
        r == exists@.contains(true),
{
    let mut i: usize = 0;
    while i < exists.len()
        invariant
            i <= exists.len(),
            forall|k: int| 0 <= k < i ==> !exists[k],
        decreases exists.len() - i,
    {
        if exists[i] {
            return true;
        }
        i += 1;
    }
    false
}

/// The files to look for to learn whether a program can be run: the program's name in
/// each directory of the search path, in the order of the path.
pub fn program_candidates(program: &str, path: &str) -> (r: Vec<String>)
    ensures
        texts(r@) == candidates(path@, program@),
{
    let len = path.unicode_len();
    let mut found: Vec<String> = Vec::new();
    let mut start: usize = 0;
    let mut i: usize = 0;
    let ghost place = |dir: Seq<char>| dir + seq!['/'] + program@;
    proof {
        reveal_strlit("/");
        assert("/"@ =~= seq!['/']);
        assert(path@.take(0) =~= Seq::<char>::empty());
        assert(path@.subrange(0, 0) =~= Seq::<char>::empty());
    }
    let ghost mut dirs: Seq<Seq<char>> = Seq::empty();
    while i < len
        invariant
            start <= i <= len,
            len == path@.len(),
            "/"@ == seq!['/'],
            place == |dir: Seq<char>| dir + seq!['/'] + program@,
            path_pieces(path@.take(i as int)) == dirs.push(path@.subrange(start as int, i as int)),
            texts(found@) == dirs.map_values(place),
        decreases len - i,
    {
        let c = path.get_char(i);
        proof {
            assert(path@.take(i + 1).drop_last() =~= path@.take(i as int));
            assert(path@.take(i + 1).last() == c);
        }
        if c == ':' {
            let dir = path.substring_char(start, i);
            let file = dir.to_string().concat("/").concat(program);
            let ghost before = texts(found@);
            found.push(file);
            proof {
                assert(texts(found@) =~= before.push(place(dir@)));
                dirs = dirs.push(dir@);
                assert(texts(found@) =~= dirs.map_values(place));
                assert(path@.subrange(i + 1, i + 1) =~= Seq::<char>::empty());
            }
            start = i + 1;
        } else {
            proof {
                let piece = path@.subrange(start as int, i as int);
                assert(piece.push(c) =~= path@.subrange(start as int, i + 1));
                assert(dirs.push(piece).update(dirs.len() as int, piece.push(c)) =~= dirs.push(
                    piece.push(c),
                ));
            }
        }
        i += 1;
    }
    let dir = path.substring_char(start, len);
    let file = dir.to_string().concat("/").concat(program);
    let ghost before = texts(found@);
    found.push(file);
    proof {
        assert(texts(found@) =~= before.push(place(dir@)));
        assert(path@.take(len as int) =~= path@);
        assert(texts(found@) =~= dirs.push(dir@).map_values(place));
    }
    found
}

/// Whether the program at place `i` of a theme's list was found. A program that
/// `present` does not speak of counts as missing.
pub open spec fn found(present: Seq<bool>, i: int) -> bool {
    0 <= i < present.len() && present[i]
}

/// Whether each program that a theme needs was found: `present` says so program by
/// program.
pub open spec fn dependencies_met(deps: Option<Seq<DependencyView>>, present: Seq<bool>) -> bool {
    match deps {
        Some(needed) => forall|i: int| 0 <= i < needed.len() ==> found(present, i),
        None => true,
    }
}

/// The LeftWM versions that a theme asks for: any, where it names none.
pub open spec fn wanted_versions(theme: ThemeView) -> Seq<char> {
    match theme.leftwm_versions {
        Some(versions) => versions,
        None => "*"@,
    }
}

/// The version of the installed LeftWM, where it could be learned.
pub open spec fn host_version(lwmv: Option<LeftWm>) -> Option<Seq<char>> {
    match lwmv {
        Some(leftwm) => Some(leftwm.version@),
        None => None,
    }
}

/// Whether a theme works with the installed LeftWM. It does not where the installed
/// version is unknown, or where it or the theme's requirement cannot be parsed.
pub open spec fn compatible(theme: ThemeView, version: Option<Seq<char>>) -> bool {
    version matches Some(installed) && requirement_parses(wanted_versions(theme))
        && version_parses(installed) && requirement_admits(wanted_versions(theme), installed)
}

/// Whether a theme works with the installed LeftWM (see [`compatible`]).
pub fn is_compatible(theme: &Theme, lwmv: &Option<LeftWm>) -> (r: bool)
    ensures
        r == compatible(theme@, host_version(*lwmv)),
{
    match lwmv {
        Some(leftwm) => {
            let met = match &theme.leftwm_versions {
                Some(versions) => check(versions.as_str(), leftwm),
                None => check("*", leftwm),
            };
            match met {
                Ok(true) => true,
                _ => false,
            }
        },
        None => false,
    }
}

/// Whether a theme can be applied: every program that it needs was found, and the
/// installed LeftWM is one that it works with.
pub fn checks(theme: &Theme, present: &Vec<bool>, lwmv: &Option<LeftWm>) -> (r: bool)
    ensures
        r == (dependencies_met(theme@.dependencies, present@) && compatible(
            theme@,
            host_version(*lwmv),
        )),
{
    match &theme.dependencies {
        None => {},
        Some(theme_dependencies) => {
            let mut i: usize = 0;
            while i < theme_dependencies.len()
                invariant
                    i <= theme_dependencies.len(),
                    theme.dependencies == Some(*theme_dependencies),
                    forall|k: int| 0 <= k < i ==> found(present@, k),
                decreases theme_dependencies.len() - i,
            {
                if i >= present.len() || !present[i] {
                    assert(theme@.dependencies.unwrap().len() == theme_dependencies.len());
                    assert(!found(present@, i as int));
                    return false;
                }
                i += 1;
            }
            assert(theme@.dependencies.unwrap().len() == theme_dependencies.len());
        },
    }
    is_compatible(theme, lwmv)
}

impl Apply {
    /// The theme to apply: the first theme of the wanted name. Fails, with words for the
    /// user, where no registry lists one, or where it is not installed.
    pub fn select(&self, config: &Config) -> (r: Result<Theme, LeftError>)
        ensures
            match r {
                Ok(theme) => selected(config@, self.name@) == Some(theme@),
                Err(e) => selected(config@, self.name@).is_none() && is_friendly(
                    e,
                    if first_of(
                        all_named(gathered(config@.repos, false), self.name@, false),
                    ).is_some() {
                        "Theme not installed"@
                    } else {
                        "Theme not found"@
                    },
                ),
            },
    {
        match Theme::find(config, self.name.as_str()) {
            Some(theme) => {
                if theme.directory.is_some() {
                    Ok(theme)
                } else {
                    Err(friendly_message("Theme not installed"))
                }
            },
            None => Err(friendly_message("Theme not found")),
        }
    }

    /// Whether to go on with a theme, given what [`checks`] said of it: a theme that did
    /// not pass is applied only where the checks are overridden. The failure has words
    /// for the user.
    pub fn allow(&self, passed: bool) -> (r: Result<(), LeftError>)
        ensures
            r.is_ok() <==> passed || self.override_checks,
            r matches Err(e) ==> is_friendly(e, "Not all prerequirements passed"@),
    {
        if !passed && !self.override_checks {
            return Err(friendly_message("Not all prerequirements passed"));
        }
        Ok(())
    }

    /// Records that a theme is the active one now. Every theme loses the mark; then the
    /// theme's record in the registry that it came from gets it. Fails, with words for
    /// the user, where that registry has no such record; a theme without a source marks
    /// no record.
    pub fn exec(&self, config: &mut Config, theme: &Theme) -> (r: Result<(), LeftError>)
        ensures
            final(config)@ == (ConfigView { repos: applied(old(config)@.repos, theme@), ..old(config)@ }),
            r.is_err() <==> lost(old(config)@.repos, theme@),
            r matches Err(e) ==> is_friendly(e, "Theme not found"@),
            at_most_one_current(final(config)@.repos),
    {
        let ghost before = config@.repos;
        let mut i: usize = 0;
        while i < config.repos.len()
            invariant
                i <= config.repos.len(),
                config.repos.len() == old(config).repos.len(),
                config.config_dir == old(config).config_dir,
                before == old(config)@.repos,
                forall|k: int| 0 <= k < i ==> (#[trigger] config.repos[k])@ == unmarked_repo(before[k]),
                forall|k: int| i <= k < config.repos.len() ==> #[trigger] config.repos[k] == old(config).repos[k],
            decreases config.repos.len() - i,
        {
            let ghost repo_before = config.repos[i as int];
            let ghost rest = config.repos@;
            assert(repo_before@ == before[i as int]);
            let mut j: usize = 0;
            while j < config.repos[i].themes.len()
                invariant
                    i < config.repos.len(),
                    j <= config.repos[i as int].themes.len(),
                    config.repos.len() == old(config).repos.len(),
                    config.config_dir == old(config).config_dir,
                    config.repos[i as int].themes.len() == repo_before.themes.len(),
                    config.repos[i as int].url == repo_before.url,
                    config.repos[i as int].name == repo_before.name,
                    config.repos[i as int].definitions_version == repo_before.definitions_version,
                    forall|k: int| 0 <= k < config.repos.len() && k != i ==> #[trigger] config.repos[k] == rest[k],
                    forall|m: int| 0 <= m < j ==> (#[trigger] config.repos[i as int].themes[m])@ == unmarked_theme(repo_before.themes[m]@),
                    forall|m: int| j <= m < repo_before.themes.len() ==> #[trigger] config.repos[i as int].themes[m] == repo_before.themes[m],
                decreases config.repos[i as int].themes.len() - j,
            {
                config.repos[i].themes[j].current = Some(false);
                j += 1;
            }
            assert(config.repos[i as int]@.themes =~= unmarked_repo(before[i as int]).themes);
            i += 1;
        }
        assert(config@.repos =~= unmarked(before));
        proof {
            if theme@.source.is_some() {
                lemma_unmarked_located(before, theme@.name, theme@.source.unwrap());
            }
        }
        let r = match &theme.source {
            Some(source) => {
                match Theme::find_mut(config, theme.name.as_str(), source.as_str()) {
                    Some(target_theme) => {
                        target_theme.current(true);
                        Ok(())
                    },
                    None => Err(friendly_message("Theme not found")),
                }
            },
            None => Ok(()),
        };
        proof {
            apply_marks_one_theme(before, theme@);
        }
        r
    }
}

} // verus!
