//! What holds of reconciliation, whatever the registries, the batches and the themes
//! directory.

use crate::models::config::{
    annotate_all, claimed, compared, current_name, entered, entered_into, has_name, has_repo,
    installed_names,
    is_current_entry, is_first, is_first_repo, is_theme_dir, lemma_has_first, lemma_position,
    local_batch, local_names, local_synced, merge, out_of_date, position, repo_position,
    unique_names, upsert, upsert_all, RepoView, CURRENT_DEFINITIONS_VERSION, CURRENT_DIR,
    LOCAL_REPO_NAME, THEMES_DIR,
};
use crate::models::paths::path_join;
use crate::models::probe::DirEntryView;
use crate::models::theme::ThemeView;
use vstd::prelude::*;

verus! {

/// Two records agree in what reconciliation never overwrites.
pub open spec fn same_local(a: ThemeView, b: ThemeView) -> bool {
    a.name == b.name && a.current == b.current && a.source == b.source
}

/// A list of themes has taken a record in: to bring the record in again changes nothing.
pub open spec fn absorbed(themes: Seq<ThemeView>, fresh: ThemeView) -> bool {
    has_name(themes, fresh.name) && merge(themes[position(themes, fresh.name)], fresh)
        == themes[position(themes, fresh.name)]
}

/// Bringing a record in keeps every theme in its place, with its name, its mark and its
/// source, and lengthens the list by one theme at most.
pub proof fn lemma_upsert_shape(themes: Seq<ThemeView>, fresh: ThemeView)
    ensures
        themes.len() <= upsert(themes, fresh).len() <= themes.len() + 1,
        has_name(themes, fresh.name) ==> upsert(themes, fresh).len() == themes.len(),
        !has_name(themes, fresh.name) ==> upsert(themes, fresh) == themes.push(fresh),
        forall|i: int|
            0 <= i < themes.len() ==> same_local(#[trigger] upsert(themes, fresh)[i], themes[i]),
        forall|i: int|
            0 <= i < themes.len() && themes[i].name != fresh.name ==> #[trigger] upsert(
                themes,
                fresh,
            )[i] == themes[i],
{
    if has_name(themes, fresh.name) {
        lemma_has_first(themes, fresh.name);
    }
}

/// A name that a list holds is still there, and first in the same place, after a record
/// is brought in; and the theme in that place is untouched unless the record has its name.
pub proof fn lemma_upsert_keeps(themes: Seq<ThemeView>, fresh: ThemeView, name: Seq<char>)
    requires
        has_name(themes, name),
    ensures
        has_name(upsert(themes, fresh), name),
        position(upsert(themes, fresh), name) == position(themes, name),
        0 <= position(themes, name) < themes.len(),
        name != fresh.name ==> upsert(themes, fresh)[position(themes, name)] == themes[position(
            themes,
            name,
        )],
{
    lemma_has_first(themes, name);
    lemma_upsert_shape(themes, fresh);
    let p = position(themes, name);
    let after = upsert(themes, fresh);
    assert(same_local(after[p], themes[p]));
    assert forall|k: int| 0 <= k < p implies #[trigger] after[k].name != name by {
        assert(same_local(after[k], themes[k]));
        assert(themes[k].name != name);
    }
    assert(is_first(after, name, p));
    lemma_position(after, name, p);
}

/// Once a record is brought in, the list has taken it in.
pub proof fn lemma_upsert_absorbs(themes: Seq<ThemeView>, fresh: ThemeView)
    ensures
        absorbed(upsert(themes, fresh), fresh),
{
    let after = upsert(themes, fresh);
    if has_name(themes, fresh.name) {
        lemma_upsert_keeps(themes, fresh, fresh.name);
    } else {
        assert forall|k: int| 0 <= k < themes.len() implies #[trigger] after[k].name
            != fresh.name by {
            assert(themes[k].name != fresh.name);
        }
        assert(is_first(after, fresh.name, themes.len() as int));
        lemma_position(after, fresh.name, themes.len() as int);
    }
}

/// A list that has taken a record in has still done so after a record of another name is
/// brought in.
pub proof fn lemma_absorbed_kept(themes: Seq<ThemeView>, other: ThemeView, fresh: ThemeView)
    requires
        absorbed(themes, fresh),
        other.name != fresh.name,
    ensures
        absorbed(upsert(themes, other), fresh),
{
    lemma_upsert_keeps(themes, other, fresh.name);
}

/// The first `k + 1` records of a batch are brought in by bringing in the first `k` and
/// then the next one.
pub proof fn lemma_upsert_all_step(themes: Seq<ThemeView>, batch: Seq<ThemeView>, k: int)
    requires
        0 <= k < batch.len(),
    ensures
        upsert_all(themes, batch.take(k + 1)) == upsert(
            upsert_all(themes, batch.take(k)),
            batch[k],
        ),
{
    assert(batch.take(k + 1).drop_last() =~= batch.take(k));
    assert(batch.take(k + 1).last() == batch[k]);
}

/// After the first `k` records of a batch are brought in, the list holds the name of
/// each of them.
pub proof fn lemma_all_present(themes: Seq<ThemeView>, batch: Seq<ThemeView>, j: int, k: int)
    requires
        0 <= j < k <= batch.len(),
    ensures
        has_name(upsert_all(themes, batch.take(k)), batch[j].name),
    decreases k,
{
    lemma_upsert_all_step(themes, batch, k - 1);
    let before = upsert_all(themes, batch.take(k - 1));
    if j == k - 1 {
        lemma_upsert_absorbs(before, batch[j]);
    } else {
        lemma_all_present(themes, batch, j, k - 1);
        lemma_upsert_keeps(before, batch[k - 1], batch[j].name);
    }
}

/// After the first `k` records of a batch are brought in, the list has taken in each of
/// them whose name no later one among them has.
pub proof fn lemma_last_absorbed(themes: Seq<ThemeView>, batch: Seq<ThemeView>, j: int, k: int)
    requires
        0 <= j < k <= batch.len(),
        forall|m: int| j < m < k ==> (#[trigger] batch[m]).name != batch[j].name,
    ensures
        absorbed(upsert_all(themes, batch.take(k)), batch[j]),
    decreases k,
{
    lemma_upsert_all_step(themes, batch, k - 1);
    let before = upsert_all(themes, batch.take(k - 1));
    if j == k - 1 {
        lemma_upsert_absorbs(before, batch[j]);
    } else {
        lemma_last_absorbed(themes, batch, j, k - 1);
        lemma_absorbed_kept(before, batch[k - 1], batch[j]);
    }
}

/// The state of a list while a batch that it has taken in before is brought in again:
/// after `k` records each theme is as it was, or awaits a later record of its name.
pub open spec fn settling(
    settled: Seq<ThemeView>,
    now: Seq<ThemeView>,
    batch: Seq<ThemeView>,
    k: int,
) -> bool {
    &&& now.len() == settled.len()
    &&& forall|i: int| 0 <= i < settled.len() ==> same_local(#[trigger] now[i], settled[i])
    &&& forall|i: int|
        0 <= i < settled.len() ==> #[trigger] now[i] == settled[i] || (is_first(
            settled,
            settled[i].name,
            i,
        ) && exists|m: int| k <= m < batch.len() && (#[trigger] batch[m]).name == settled[i].name)
}

/// Two lists with the same names in the same places hold the same names, each first in
/// the same place.
pub proof fn lemma_same_names(a: Seq<ThemeView>, b: Seq<ThemeView>, name: Seq<char>)
    requires
        a.len() == b.len(),
        forall|i: int| 0 <= i < a.len() ==> same_local(#[trigger] b[i], a[i]),
        has_name(a, name),
    ensures
        has_name(b, name),
        position(b, name) == position(a, name),
        0 <= position(a, name) < a.len(),
{
    lemma_has_first(a, name);
    let p = position(a, name);
    assert(same_local(b[p], a[p]));
    assert forall|k: int| 0 <= k < p implies #[trigger] b[k].name != name by {
        assert(same_local(b[k], a[k]));
        assert(a[k].name != name);
    }
    assert(is_first(b, name, p));
    lemma_position(b, name, p);
}

/// Bringing a batch in again, record by record, leads back to the list that had taken
/// it in.
pub proof fn lemma_second_pass(settled: Seq<ThemeView>, batch: Seq<ThemeView>, k: int)
    requires
        0 <= k <= batch.len(),
        forall|j: int| 0 <= j < batch.len() ==> has_name(settled, (#[trigger] batch[j]).name),
        forall|j: int|
            0 <= j < batch.len() && (forall|m: int|
                j < m < batch.len() ==> (#[trigger] batch[m]).name != batch[j].name) ==> absorbed(
                settled,
                #[trigger] batch[j],
            ),
    ensures
        settling(settled, upsert_all(settled, batch.take(k)), batch, k),
    decreases k,
{
    if k == 0 {
        assert(batch.take(0) =~= Seq::empty());
    } else {
        lemma_second_pass(settled, batch, k - 1);
        lemma_upsert_all_step(settled, batch, k - 1);
        let before = upsert_all(settled, batch.take(k - 1));
        let fresh = batch[k - 1];
        let after = upsert(before, fresh);
        assert(has_name(settled, fresh.name));
        lemma_same_names(settled, before, fresh.name);
        lemma_has_first(settled, fresh.name);
        lemma_has_first(before, fresh.name);
        lemma_upsert_shape(before, fresh);
        let p = position(settled, fresh.name);
        assert(after == before.update(p, merge(before[p], fresh)));
        assert forall|i: int| 0 <= i < settled.len() implies same_local(
            #[trigger] after[i],
            settled[i],
        ) by {
            assert(same_local(before[i], settled[i]));
        }
        assert forall|i: int| 0 <= i < settled.len() implies #[trigger] after[i] == settled[i] || (
        is_first(settled, settled[i].name, i) && exists|m: int|
            k <= m < batch.len() && (#[trigger] batch[m]).name == settled[i].name) by {
            if i == p {
                if exists|m: int| k <= m < batch.len() && (#[trigger] batch[m]).name == fresh.name {
                    let m = choose|m: int|
                        k <= m < batch.len() && (#[trigger] batch[m]).name == fresh.name;
                    assert(batch[m].name == settled[p].name);
                } else {
                    assert forall|m: int| k - 1 < m < batch.len() implies (#[trigger] batch[m]).name
                        != fresh.name by {
                        if batch[m].name == fresh.name {
                            assert(k <= m < batch.len() && batch[m].name == fresh.name);
                        }
                    }
                    assert(absorbed(settled, batch[k - 1]));
                    assert(same_local(before[p], settled[p]));
                    assert(merge(before[p], fresh) == merge(settled[p], fresh));
                }
            } else {
                assert(after[i] == before[i]);
                if before[i] != settled[i] {
                    let m = choose|m: int|
                        k - 1 <= m < batch.len() && (#[trigger] batch[m]).name == settled[i].name;
                    if m == k - 1 {
                        lemma_position(settled, settled[i].name, i);
                    }
                    assert(k <= m < batch.len() && batch[m].name == settled[i].name);
                }
            }
        }
    }
}

/// Bringing the same batch in twice leaves the list as bringing it in once does.
pub proof fn lemma_upsert_all_idempotent(themes: Seq<ThemeView>, batch: Seq<ThemeView>)
    ensures
        upsert_all(upsert_all(themes, batch), batch) == upsert_all(themes, batch),
{
    let n = batch.len() as int;
    let settled = upsert_all(themes, batch);
    assert(batch.take(n) =~= batch);
    assert forall|j: int| 0 <= j < batch.len() implies has_name(
        settled,
        (#[trigger] batch[j]).name,
    ) by {
        lemma_all_present(themes, batch, j, n);
    }
    assert forall|j: int|
        0 <= j < batch.len() && (forall|m: int|
            j < m < batch.len() ==> (#[trigger] batch[m]).name != batch[j].name) implies absorbed(
        settled,
        #[trigger] batch[j],
    ) by {
        lemma_last_absorbed(themes, batch, j, n);
    }
    lemma_second_pass(settled, batch, n);
    let again = upsert_all(settled, batch);
    assert forall|i: int| 0 <= i < settled.len() implies again[i] == settled[i] by {
        if again[i] != settled[i] {
            let m = choose|m: int|
                n <= m < batch.len() && (#[trigger] batch[m]).name == settled[i].name;
        }
    }
    assert(again =~= settled);
}

/// Reconciling the same batch twice in a row, with the themes directory unchanged, leaves
/// the registry as reconciling it once does: no theme is listed twice, and no field
/// drifts.
pub proof fn compare_twice_is_compare_once(
    repo: RepoView,
    batch: Seq<ThemeView>,
    batch_version: i16,
    config_dir: Seq<char>,
    entries: Seq<DirEntryView>,
)
    ensures
        compared(
            compared(repo, batch, batch_version, config_dir, entries),
            batch,
            batch_version,
            config_dir,
            entries,
        ) == compared(repo, batch, batch_version, config_dir, entries),
{
    if !out_of_date(repo.definitions_version, batch_version) {
        lemma_upsert_all_idempotent(
            repo.themes,
            annotate_all(
                batch,
                installed_names(entries),
                current_name(entries),
                path_join(config_dir, THEMES_DIR@),
            ),
        );
    }
}

/// Bringing a record into a list without two themes of one name leaves it so.
pub proof fn lemma_upsert_unique(themes: Seq<ThemeView>, fresh: ThemeView)
    requires
        unique_names(themes),
    ensures
        unique_names(upsert(themes, fresh)),
{
    lemma_upsert_shape(themes, fresh);
    let after = upsert(themes, fresh);
    assert forall|i: int, j: int|
        0 <= i < after.len() && 0 <= j < after.len() && i != j implies #[trigger] after[i].name
        != #[trigger] after[j].name by {
        if i < themes.len() {
            assert(same_local(after[i], themes[i]));
        }
        if j < themes.len() {
            assert(same_local(after[j], themes[j]));
        }
        if i < themes.len() && j < themes.len() {
            assert(themes[i].name != themes[j].name);
        } else if i < themes.len() {
            assert(themes[i].name != fresh.name);
        } else if j < themes.len() {
            assert(themes[j].name != fresh.name);
        }
    }
}

/// Bringing a batch into a list without two themes of one name leaves it so.
pub proof fn lemma_upsert_all_unique(themes: Seq<ThemeView>, batch: Seq<ThemeView>)
    requires
        unique_names(themes),
    ensures
        unique_names(upsert_all(themes, batch)),
    decreases batch.len(),
{
    if batch.len() > 0 {
        lemma_upsert_all_unique(themes, batch.drop_last());
        lemma_upsert_unique(upsert_all(themes, batch.drop_last()), batch.last());
    }
}

/// A registry in which no two themes share a name is still such a registry after any
/// batch is reconciled with it, and so after any number of batches and single records.
pub proof fn compare_keeps_names_unique(
    repo: RepoView,
    batch: Seq<ThemeView>,
    batch_version: i16,
    config_dir: Seq<char>,
    entries: Seq<DirEntryView>,
)
    requires
        unique_names(repo.themes),
    ensures
        unique_names(compared(repo, batch, batch_version, config_dir, entries).themes),
{
    if !out_of_date(repo.definitions_version, batch_version) {
        lemma_upsert_all_unique(
            repo.themes,
            annotate_all(
                batch,
                installed_names(entries),
                current_name(entries),
                path_join(config_dir, THEMES_DIR@),
            ),
        );
    }
}

/// In every registry, no two themes share a name.
pub open spec fn all_unique(repos: Seq<RepoView>) -> bool {
    forall|i: int| 0 <= i < repos.len() ==> unique_names((#[trigger] repos[i]).themes)
}

/// Entering a record into a list without two themes of one name leaves it so.
pub proof fn lemma_entered_unique(themes: Seq<ThemeView>, fresh: ThemeView)
    requires
        unique_names(themes),
    ensures
        unique_names(entered(themes, fresh)),
{
    let after = entered(themes, fresh);
    if has_name(themes, fresh.name) {
        lemma_has_first(themes, fresh.name);
        assert forall|i: int, j: int|
            0 <= i < after.len() && 0 <= j < after.len() && i != j implies #[trigger] after[i].name
            != #[trigger] after[j].name by {
            assert(after[i].name == themes[i].name);
            assert(after[j].name == themes[j].name);
        }
    } else {
        assert forall|i: int, j: int|
            0 <= i < after.len() && 0 <= j < after.len() && i != j implies #[trigger] after[i].name
            != #[trigger] after[j].name by {
            if i < themes.len() && j < themes.len() {
                assert(themes[i].name != themes[j].name);
            } else if i < themes.len() {
                assert(themes[i].name != fresh.name);
            } else if j < themes.len() {
                assert(themes[j].name != fresh.name);
            }
        }
    }
}

/// Registries in each of which no two themes share a name are still such after a
/// record is entered into one of them, or into a new one.
pub proof fn entering_keeps_names_unique(
    repos: Seq<RepoView>,
    fresh: ThemeView,
    url: Seq<char>,
    name: Seq<char>,
)
    requires
        all_unique(repos),
    ensures
        all_unique(entered_into(repos, fresh, url, name)),
{
    let after = entered_into(repos, fresh, url, name);
    if has_repo(repos, name) {
        let p = repo_position(repos, name);
        assert(is_first_repo(repos, name, p));
        assert(unique_names(repos[p].themes));
        lemma_entered_unique(repos[p].themes, fresh);
        assert forall|i: int| 0 <= i < after.len() implies unique_names(
            (#[trigger] after[i]).themes,
        ) by {
            if i != p {
                assert(after[i] == repos[i]);
            }
        }
    } else {
        assert forall|i: int| 0 <= i < after.len() implies unique_names(
            (#[trigger] after[i]).themes,
        ) by {
            if i < repos.len() {
                assert(after[i] == repos[i]);
            }
        }
    }
}

/// Registries in each of which no two themes share a name are still such after the
/// local registry is brought in line with the themes directory.
pub proof fn local_sync_keeps_names_unique(
    repos: Seq<RepoView>,
    config_dir: Seq<char>,
    entries: Seq<DirEntryView>,
)
    requires
        all_unique(repos),
    ensures
        all_unique(local_synced(repos, config_dir, entries)),
{
    let after = local_synced(repos, config_dir, entries);
    if has_repo(repos, LOCAL_REPO_NAME@) {
        let p = repo_position(repos, LOCAL_REPO_NAME@);
        assert(is_first_repo(repos, LOCAL_REPO_NAME@, p));
        assert(unique_names(repos[p].themes));
        compare_keeps_names_unique(
            repos[p],
            local_batch(local_names(repos, entries), path_join(config_dir, THEMES_DIR@)),
            CURRENT_DEFINITIONS_VERSION,
            config_dir,
            entries,
        );
        assert forall|i: int| 0 <= i < after.len() implies unique_names(
            (#[trigger] after[i]).themes,
        ) by {
            if i != p {
                assert(after[i] == repos[i]);
            }
        }
    }
}

/// Where the registry or the batch is laid out in a way that is newer than this
/// library knows, reconciliation leaves the registry exactly as it was.
pub proof fn compare_refuses_newer_layouts(
    repo: RepoView,
    batch: Seq<ThemeView>,
    batch_version: i16,
    config_dir: Seq<char>,
    entries: Seq<DirEntryView>,
)
    requires
        repo.definitions_version > CURRENT_DEFINITIONS_VERSION || batch_version
            > CURRENT_DEFINITIONS_VERSION,
    ensures
        compared(repo, batch, batch_version, config_dir, entries) == repo,
{
}

/// Bringing a batch in keeps every theme in its place, with its name, its mark and its
/// source.
pub proof fn lemma_upsert_all_shape(themes: Seq<ThemeView>, batch: Seq<ThemeView>)
    ensures
        themes.len() <= upsert_all(themes, batch).len(),
        forall|i: int|
            0 <= i < themes.len() ==> same_local(#[trigger] upsert_all(themes, batch)[i], themes[i]),
    decreases batch.len(),
{
    if batch.len() > 0 {
        let before = upsert_all(themes, batch.drop_last());
        lemma_upsert_all_shape(themes, batch.drop_last());
        lemma_upsert_shape(before, batch.last());
        assert forall|i: int| 0 <= i < themes.len() implies same_local(
            #[trigger] upsert_all(themes, batch)[i],
            themes[i],
        ) by {
            assert(same_local(upsert(before, batch.last())[i], before[i]));
            assert(same_local(before[i], themes[i]));
        }
    }
}

/// Reconciliation removes no theme: every theme of the registry is still in its place
/// afterwards, with its name, its mark of the active theme and its source, whether the
/// batch speaks of it or not. The registry's own name, address and layout stay too.
pub proof fn compare_removes_no_theme(
    repo: RepoView,
    batch: Seq<ThemeView>,
    batch_version: i16,
    config_dir: Seq<char>,
    entries: Seq<DirEntryView>,
)
    ensures
        repo.themes.len() <= compared(repo, batch, batch_version, config_dir, entries).themes.len(),
        forall|i: int|
            0 <= i < repo.themes.len() ==> same_local(
                #[trigger] compared(repo, batch, batch_version, config_dir, entries).themes[i],
                repo.themes[i],
            ),
        compared(repo, batch, batch_version, config_dir, entries).name == repo.name,
        compared(repo, batch, batch_version, config_dir, entries).url == repo.url,
        compared(repo, batch, batch_version, config_dir, entries).definitions_version
            == repo.definitions_version,
{
    if !out_of_date(repo.definitions_version, batch_version) {
        lemma_upsert_all_shape(
            repo.themes,
            annotate_all(
                batch,
                installed_names(entries),
                current_name(entries),
                path_join(config_dir, THEMES_DIR@),
            ),
        );
    }
}

/// The place of the last record of a batch that has the name of the record at `j`.
pub proof fn lemma_last_occurrence(batch: Seq<ThemeView>, j: int) -> (m: int)
    requires
        0 <= j < batch.len(),
    ensures
        j <= m < batch.len(),
        batch[m].name == batch[j].name,
        forall|k: int| m < k < batch.len() ==> (#[trigger] batch[k]).name != batch[j].name,
    decreases batch.len() - j,
{
    if exists|k: int| j < k < batch.len() && (#[trigger] batch[k]).name == batch[j].name {
        let k = choose|k: int| j < k < batch.len() && (#[trigger] batch[k]).name == batch[j].name;
        lemma_last_occurrence(batch, k)
    } else {
        j
    }
}

/// After reconciliation the registry knows of each theme of the batch whether it is
/// installed: where the records of a name arrive without a directory, as a registry
/// publishes them, the theme of that name has the directory of its name under the themes
/// directory if the themes directory holds it, and no directory if it does not.
pub proof fn compare_records_what_is_installed(
    repo: RepoView,
    batch: Seq<ThemeView>,
    batch_version: i16,
    config_dir: Seq<char>,
    entries: Seq<DirEntryView>,
    j: int,
)
    requires
        !out_of_date(repo.definitions_version, batch_version),
        0 <= j < batch.len(),
        forall|k: int|
            0 <= k < batch.len() && (#[trigger] batch[k]).name == batch[j].name
                ==> batch[k].directory.is_none(),
    ensures
        ({
            let after = compared(repo, batch, batch_version, config_dir, entries).themes;
            let name = batch[j].name;
            &&& has_name(after, name)
            &&& 0 <= position(after, name) < after.len()
            &&& after[position(after, name)].name == name
            &&& after[position(after, name)].directory == if installed_names(entries).contains(
                name,
            ) {
                Some(path_join(path_join(config_dir, THEMES_DIR@), name))
            } else {
                None::<Seq<char>>
            }
        }),
{
    let seen = annotate_all(
        batch,
        installed_names(entries),
        current_name(entries),
        path_join(config_dir, THEMES_DIR@),
    );
    let after = upsert_all(repo.themes, seen);
    let m = lemma_last_occurrence(seen, j);
    assert(seen.take(seen.len() as int) =~= seen);
    lemma_last_absorbed(repo.themes, seen, m, seen.len() as int);
    lemma_has_first(after, seen[m].name);
    assert(batch[m].name == batch[j].name);
}

/// The installed themes are directories of the listing, and none of them is called
/// `current`.
pub proof fn installed_names_are_theme_directories(entries: Seq<DirEntryView>, k: int)
    requires
        0 <= k < installed_names(entries).len(),
    ensures
        installed_names(entries)[k] != CURRENT_DIR@,
        exists|i: int|
            0 <= i < entries.len() && (#[trigger] entries[i]).is_dir && entries[i].name
                == installed_names(entries)[k],
        !installed_names(entries).contains(CURRENT_DIR@),
{
    let pred = |e: DirEntryView| is_theme_dir(e);
    let kept = entries.filter(pred);
    entries.lemma_filter_pred(pred, k);
    entries.lemma_filter_contains_rev(pred, kept[k]);
    let i = choose|i: int| 0 <= i < entries.len() && entries[i] == kept[k];
    assert(entries[i].is_dir && entries[i].name == installed_names(entries)[k]);
    if installed_names(entries).contains(CURRENT_DIR@) {
        let m = choose|m: int|
            0 <= m < installed_names(entries).len() && installed_names(entries)[m]
                == CURRENT_DIR@;
        entries.lemma_filter_pred(pred, m);
    }
}

/// The entries of a listing have names of their own, as the entries of a directory
/// have.
pub open spec fn distinct_entries(entries: Seq<DirEntryView>) -> bool {
    forall|i: int, j: int|
        0 <= i < entries.len() && 0 <= j < entries.len() && i != j ==> (#[trigger] entries[i]).name
            != (#[trigger] entries[j]).name
}

/// Where the entries of a listing have names of their own, no theme is listed twice as
/// installed.
pub proof fn installed_names_are_distinct(entries: Seq<DirEntryView>)
    requires
        distinct_entries(entries),
    ensures
        forall|a: int, b: int|
            0 <= a < installed_names(entries).len() && 0 <= b < installed_names(entries).len()
                && a != b ==> #[trigger] installed_names(entries)[a] != #[trigger] installed_names(
                entries,
            )[b],
    decreases entries.len(),
{
    reveal(Seq::filter);
    if entries.len() > 0 {
        let pred = |e: DirEntryView| is_theme_dir(e);
        let rest = entries.drop_last();
        let last = entries.last();
        assert(distinct_entries(rest)) by {
            assert forall|i: int, j: int|
                0 <= i < rest.len() && 0 <= j < rest.len() && i != j implies (#[trigger] rest[i]).name
                != (#[trigger] rest[j]).name by {
                assert(entries[i].name != entries[j].name);
            }
        }
        installed_names_are_distinct(rest);
        let before = installed_names(rest);
        let all = installed_names(entries);
        if is_theme_dir(last) {
            assert(all =~= before.push(last.name));
            assert forall|a: int| 0 <= a < before.len() implies #[trigger] before[a]
                != last.name by {
                installed_names_are_theme_directories(rest, a);
                let i = choose|i: int|
                    0 <= i < rest.len() && (#[trigger] rest[i]).is_dir && rest[i].name == before[a];
                assert(entries[i].name != entries[entries.len() - 1].name);
            }
        } else {
            assert(all =~= before);
        }
    }
}

/// A themes directory names an active theme only through a symbolic link called
/// `current`: a listing in which no entry of that name is a link has no active theme.
/// That holds of a directory or a plain file of that name, of a listing without such an
/// entry, and of an empty listing.
pub proof fn current_theme_needs_a_link(entries: Seq<DirEntryView>)
    requires
        forall|i: int|
            0 <= i < entries.len() && (#[trigger] entries[i]).name == CURRENT_DIR@
                ==> entries[i].link_target.is_none(),
    ensures
        current_name(entries).is_none(),
{
    if exists|i: int| is_current_entry(entries, i) {
        let i = choose|i: int| is_current_entry(entries, i);
        assert(entries[i].link_target.is_none());
    }
}

/// No theme of a registry named `LOCAL` has a name that another registry lists.
pub open spec fn local_exclusive(repos: Seq<RepoView>) -> bool {
    forall|i: int, j: int|
        0 <= i < repos.len() && 0 <= j < repos[i].themes.len() && repos[i].name
            == LOCAL_REPO_NAME@ ==> !claimed(repos, (#[trigger] repos[i].themes[j]).name)
}

/// After a batch is brought in, each theme's name was in the list before or is that of
/// a record of the batch.
pub proof fn lemma_upsert_all_names(themes: Seq<ThemeView>, batch: Seq<ThemeView>, i: int)
    requires
        0 <= i < upsert_all(themes, batch).len(),
    ensures
        has_name(themes, upsert_all(themes, batch)[i].name) || exists|m: int|
            0 <= m < batch.len() && (#[trigger] batch[m]).name == upsert_all(themes, batch)[i].name,
    decreases batch.len(),
{
    if batch.len() > 0 {
        let before = upsert_all(themes, batch.drop_last());
        let fresh = batch.last();
        let name = upsert_all(themes, batch)[i].name;
        lemma_upsert_shape(before, fresh);
        if i < before.len() {
            assert(same_local(upsert(before, fresh)[i], before[i]));
            lemma_upsert_all_names(themes, batch.drop_last(), i);
            if !has_name(themes, name) {
                let m = choose|m: int|
                    0 <= m < batch.drop_last().len() && (#[trigger] batch.drop_last()[m]).name
                        == name;
                assert(batch[m].name == name);
            }
        } else {
            assert(batch[batch.len() - 1].name == name);
        }
    } else {
        assert(themes[i].name == upsert_all(themes, batch)[i].name);
    }
}

/// Bringing the local registry in line with the themes directory never lets a theme
/// enter it that another registry lists: where no theme of a local registry has a name
/// that another registry lists, that is still so afterwards.
pub proof fn local_sync_keeps_local_exclusive(
    repos: Seq<RepoView>,
    config_dir: Seq<char>,
    entries: Seq<DirEntryView>,
)
    requires
        local_exclusive(repos),
    ensures
        local_exclusive(local_synced(repos, config_dir, entries)),
{
    let after = local_synced(repos, config_dir, entries);
    if has_repo(repos, LOCAL_REPO_NAME@) {
        let p = repo_position(repos, LOCAL_REPO_NAME@);
        assert(is_first_repo(repos, LOCAL_REPO_NAME@, p));
        let names = local_names(repos, entries);
        let themes_dir = path_join(config_dir, THEMES_DIR@);
        let batch = local_batch(names, themes_dir);
        let seen = annotate_all(batch, installed_names(entries), current_name(entries), themes_dir);
        assert(after.len() == repos.len());
        assert(after[p].name == LOCAL_REPO_NAME@);
        assert forall|name: Seq<char>| claimed(after, name) implies claimed(repos, name) by {
            let i = choose|i: int|
                0 <= i < after.len() && (#[trigger] after[i]).name != LOCAL_REPO_NAME@ && has_name(
                    after[i].themes,
                    name,
                );
            assert(i != p);
            assert(repos[i] == after[i]);
        }
        assert forall|i: int, j: int|
            0 <= i < after.len() && 0 <= j < after[i].themes.len() && after[i].name
                == LOCAL_REPO_NAME@ implies !claimed(after, (#[trigger] after[i].themes[j]).name) by {
            let name = after[i].themes[j].name;
            if i != p || out_of_date(repos[p].definitions_version, CURRENT_DEFINITIONS_VERSION) {
                assert(after[i] == repos[i]);
                assert(!claimed(repos, repos[i].themes[j].name));
            } else {
                assert(after[p].themes == upsert_all(repos[p].themes, seen));
                lemma_upsert_all_names(repos[p].themes, seen, j);
                if has_name(repos[p].themes, name) {
                    let w = choose|w: int|
                        0 <= w < repos[p].themes.len() && #[trigger] repos[p].themes[w].name
                            == name;
                    assert(!claimed(repos, repos[p].themes[w].name));
                } else {
                    let m = choose|m: int|
                        0 <= m < seen.len() && (#[trigger] seen[m]).name == name;
                    assert(seen[m].name == batch[m].name);
                    assert(batch[m].name == names[m]);
                    installed_names(entries).lemma_filter_pred(
                        |name: Seq<char>| !claimed(repos, name),
                        m,
                    );
                }
            }
        }
    }
}

} // verus!
