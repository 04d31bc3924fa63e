use leftwm_theme::errors::LeftErrorKind;
use leftwm_theme::models::config::{
    COMMUNITY_REPO_NAME, CURRENT_DEFINITIONS_VERSION, CURRENT_DIR, LOCAL_REPO_NAME,
};
use leftwm_theme::models::probe::DirEntry;
use leftwm_theme::models::{Config, Repo, TempThemes, Theme};

fn dir(name: &str) -> DirEntry {
    DirEntry { name: name.to_string(), is_dir: true, link_target: None }
}

fn file(name: &str) -> DirEntry {
    DirEntry { name: name.to_string(), is_dir: false, link_target: None }
}

fn link(name: &str, target: &str, is_dir: bool) -> DirEntry {
    DirEntry { name: name.to_string(), is_dir, link_target: Some(target.to_string()) }
}

fn remote(name: &str, version: &str) -> Theme {
    let mut theme = Theme::new(name, None, None);
    theme.repository = Some(format!("https://github.com/leftwm/{}/", name));
    theme.commit = Some("*".to_string());
    theme.version = Some(version.to_string());
    theme.current = None;
    theme
}

fn repo(name: &str, themes: Vec<Theme>) -> Repo {
    Repo {
        url: format!("https://example.org/{}.toml", name),
        name: name.to_string(),
        definitions_version: CURRENT_DEFINITIONS_VERSION,
        themes,
    }
}

fn names(repo: &Repo) -> Vec<String> {
    repo.themes.iter().map(|t| t.name.clone()).collect()
}

#[test]
fn test_installed_themes() {
    let entries = vec![
        dir("test-theme1"),
        dir("test-theme2"),
        file("some-file"),
        link(CURRENT_DIR, "/tmp/config/themes/test-theme2", true),
    ];
    let mut result_vec = Repo::installed_themes(&entries);
    result_vec.sort();
    assert_eq!(result_vec, vec!["test-theme1".to_string(), "test-theme2".to_string(),],);
}

#[test]
fn test_installed_themes_no_themes_dir() {
    let entries: Vec<DirEntry> = Vec::new();
    assert!(Repo::installed_themes(&entries).is_empty());
}

#[test]
fn installed_themes_keep_the_order_of_the_listing() {
    let entries = vec![dir("zeta"), file("notes.txt"), dir("alpha"), dir(CURRENT_DIR)];
    assert_eq!(Repo::installed_themes(&entries), vec!["zeta".to_string(), "alpha".to_string()]);
}

#[test]
fn installed_themes_follow_links_to_directories() {
    let entries = vec![link("linked", "/elsewhere/linked", true), link("dangling", "/gone", false)];
    assert_eq!(Repo::installed_themes(&entries), vec!["linked".to_string()]);
}

#[test]
fn test_current_theme() {
    let entries = vec![
        dir("test-theme1"),
        dir("test-theme2"),
        link(CURRENT_DIR, "/tmp/config/themes/test-theme2", true),
    ];
    let result = Repo::current_theme(&entries);
    assert_eq!(result.unwrap(), "test-theme2");
}

#[test]
fn test_current_theme_unmanaged() {
    let entries = vec![dir(CURRENT_DIR)];
    let result = Repo::current_theme(&entries);
    assert!(result.is_none());
}

#[test]
fn test_current_theme_no_themes_dir() {
    let entries: Vec<DirEntry> = Vec::new();
    assert!(Repo::current_theme(&entries).is_none());
}

#[test]
fn test_current_theme_no_current() {
    let entries = vec![dir("test-theme1"), dir("test-theme2")];
    assert!(Repo::current_theme(&entries).is_none());
}

#[test]
fn test_current_theme_current_file() {
    let entries = vec![file(CURRENT_DIR)];
    assert!(Repo::current_theme(&entries).is_none());
}

#[test]
fn current_theme_is_the_last_component_of_the_target() {
    let entries = vec![link(CURRENT_DIR, "themes/nested/theme-b/", true)];
    assert_eq!(Repo::current_theme(&entries), Some("theme-b".to_string()));
}

#[test]
fn current_theme_of_a_link_without_a_name_is_none() {
    let entries = vec![link(CURRENT_DIR, "/", true)];
    assert_eq!(Repo::current_theme(&entries), None);
    assert_eq!(Repo::target_theme(Some(String::new())), None);
    assert_eq!(Repo::target_theme(None), None);
    assert_eq!(Repo::target_theme(Some("a".to_string())), Some("a".to_string()));
}

#[test]
fn test_config_new() {
    let config1 = Config::new(None);
    assert!(config1.config_dir.is_none());
    assert!(config1.get_config_dir("/home/user/.config/leftwm/").ends_with("/.config/leftwm/"));

    let config2 = Config::new(Some("/tmp/foo".to_string()));
    assert!(config2.config_dir.is_some());
    assert!(config2.get_config_dir("/home/user/.config/leftwm/").eq("/tmp/foo"));
}

#[test]
fn test_config_default() {
    let config = Config::new(None).default();
    assert_eq!(config.repos.len(), 2);
    assert!(config.repos.iter().any(|x| x.name == COMMUNITY_REPO_NAME));
    assert!(config.repos.iter().any(|x| x.name == LOCAL_REPO_NAME));
}

#[test]
fn config_default_adds_to_the_configuration_itself() {
    let mut config = Config::new(Some("/tmp/foo".to_string()));
    let copy = config.default();
    assert_eq!(config.repos.len(), 2);
    assert_eq!(config.repos[0].name, "community");
    assert_eq!(
        config.repos[0].url,
        "https://raw.githubusercontent.com/leftwm/leftwm-community-themes/master/known.toml"
    );
    assert_eq!(config.repos[0].definitions_version, 1);
    assert_eq!(config.repos[1].name, "LOCAL");
    assert_eq!(config.repos[1].url, "localhost");
    assert_eq!(config.repos[1].definitions_version, 1);
    assert_eq!(copy.config_dir, Some("/tmp/foo".to_string()));
    assert_eq!(copy.repos.len(), 2);
}

#[test]
fn test_config_update_local_repo() {
    let entries = vec![
        dir("community-theme1"),
        dir("community-theme2"),
        dir("local-theme1"),
        dir("local-theme2"),
        link(CURRENT_DIR, "/tmp/config/themes/local-theme1", true),
    ];

    let t1 = Theme::new(
        "community-theme1",
        None,
        Some("/tmp/config/themes/community-theme1".to_string()),
    );
    let t2 = Theme::new(
        "community-theme2",
        None,
        Some("/tmp/config/themes/community-theme2".to_string()),
    );
    let t3 = Theme::new("community-theme3", None, None);

    let mut config = Config::new(Some("/tmp/config".to_string())).default();

    for repo in &mut config.repos {
        if repo.name == COMMUNITY_REPO_NAME {
            repo.themes.push(t1);
            repo.themes.push(t2);
            repo.themes.push(t3);
            break;
        }
    }

    assert!(config.update_local_repo("/tmp/config", &entries).is_ok());

    let comm_repo = config.repos.clone().into_iter().find(|x| x.name == COMMUNITY_REPO_NAME).unwrap();
    assert_eq!(comm_repo.themes.len(), 3);

    let local_repo = config.repos.into_iter().find(|x| x.name == LOCAL_REPO_NAME).unwrap();
    assert_eq!(local_repo.themes.len(), 2);

    let local_theme1 = local_repo.themes.into_iter().find(|x| x.name == "local-theme1").unwrap();
    assert!(local_theme1.current.unwrap());
    assert_eq!(local_theme1.directory, Some("/tmp/config/themes/local-theme1".to_string()));
}

#[test]
fn local_registry_never_takes_a_claimed_theme() {
    let entries = vec![dir("theme-a"), dir("theme-z")];
    let mut config = Config::new(Some("/cfg".to_string())).default();
    config.repos[0].themes.push(Theme::new("theme-a", None, None));
    assert!(config.update_local_repo("/cfg", &entries).is_ok());
    assert_eq!(names(&config.repos[0]), vec!["theme-a".to_string()]);
    assert_eq!(names(&config.repos[1]), vec!["theme-z".to_string()]);
    for local in &config.repos[1].themes {
        assert!(!config.repos[0].themes.iter().any(|t| t.name == local.name));
    }
    assert_eq!(config.repos[1].themes[0].directory, Some("/cfg/themes/theme-z".to_string()));
    assert_eq!(config.repos[1].themes[0].version, Some("0.0.0".to_string()));
    assert_eq!(config.repos[1].themes[0].leftwm_versions, Some("*".to_string()));
    assert_eq!(config.repos[1].themes[0].current, Some(false));
}

#[test]
fn local_sync_without_a_local_registry_changes_nothing() {
    let entries = vec![dir("theme-z")];
    let mut config = Config::new(None);
    config.repos.push(repo("community", vec![]));
    assert!(config.update_local_repo("/cfg", &entries).is_ok());
    assert_eq!(config.repos.len(), 1);
    assert!(config.repos[0].themes.is_empty());
}

#[test]
fn local_sync_refuses_a_newer_local_registry() {
    let entries = vec![dir("theme-z")];
    let mut config = Config::new(None).default();
    config.repos[1].definitions_version = CURRENT_DEFINITIONS_VERSION + 1;
    let result = config.update_local_repo("/cfg", &entries);
    assert!(matches!(result.unwrap_err().inner, LeftErrorKind::DefinitionsOutOfDate));
    assert!(config.repos[1].themes.is_empty());
}

#[test]
fn compare_adds_the_batch_in_order() {
    let mut target = repo("test-repo", vec![]);
    let batch = TempThemes {
        theme: vec![remote("test-theme1", "0.0.5"), remote("test-theme2", "0.0.3")],
        definitions_version: CURRENT_DEFINITIONS_VERSION,
    };
    let entries: Vec<DirEntry> = Vec::new();
    assert!(target.compare(batch, "/cfg", &entries).is_ok());
    assert_eq!(names(&target), vec!["test-theme1".to_string(), "test-theme2".to_string()]);
    assert_eq!(target.themes[0].directory, None);
    assert_eq!(target.themes[1].directory, None);
    assert_eq!(target.themes[0].version, Some("0.0.5".to_string()));
    assert_eq!(target.themes[0].current, None);
}

#[test]
fn compare_marks_what_is_installed_and_current() {
    let mut target = repo("community", vec![]);
    let batch = TempThemes {
        theme: vec![remote("theme-a", "1"), remote("theme-b", "1"), remote("theme-c", "1")],
        definitions_version: 0,
    };
    let entries = vec![dir("theme-a"), dir("theme-b"), link("current", "/cfg/themes/theme-b", true)];
    assert!(target.compare(batch, "/cfg", &entries).is_ok());
    assert_eq!(target.themes[0].directory, Some("/cfg/themes/theme-a".to_string()));
    assert_eq!(target.themes[0].current, None);
    assert_eq!(target.themes[1].directory, Some("/cfg/themes/theme-b".to_string()));
    assert_eq!(target.themes[1].current, Some(true));
    assert_eq!(target.themes[2].directory, None);
    assert_eq!(target.themes[2].current, None);
}

#[test]
fn compare_updates_a_known_theme_in_place() {
    let mut known = remote("theme-a", "1");
    known.description = Some("old".to_string());
    known.current = Some(true);
    known.source = Some("community".to_string());
    known.directory = Some("/cfg/themes/theme-a".to_string());
    let mut target = repo("community", vec![known, remote("theme-b", "7")]);
    let mut fresh = remote("theme-a", "2");
    fresh.support_url = Some("https://help".to_string());
    fresh.relative_directory = Some("sub".to_string());
    let batch = TempThemes { theme: vec![fresh], definitions_version: 1 };
    let entries: Vec<DirEntry> = Vec::new();
    assert!(target.compare(batch, "/cfg", &entries).is_ok());
    assert_eq!(names(&target), vec!["theme-a".to_string(), "theme-b".to_string()]);
    let theme = &target.themes[0];
    assert_eq!(theme.version, Some("2".to_string()));
    assert_eq!(theme.description, None);
    assert_eq!(theme.support_url, Some("https://help".to_string()));
    assert_eq!(theme.relative_directory, Some("sub".to_string()));
    assert_eq!(theme.directory, None);
    assert_eq!(theme.current, Some(true));
    assert_eq!(theme.source, Some("community".to_string()));
    assert_eq!(target.themes[1].version, Some("7".to_string()));
}

#[test]
fn compare_twice_is_compare_once() {
    let entries = vec![dir("theme-a"), link("current", "/cfg/themes/theme-a", true)];
    let batch = || TempThemes {
        theme: vec![remote("theme-a", "1"), remote("theme-b", "1"), remote("theme-a", "2")],
        definitions_version: 1,
    };
    let mut once = repo("community", vec![remote("theme-b", "0")]);
    assert!(once.compare(batch(), "/cfg", &entries).is_ok());
    let mut twice = once.clone();
    assert!(twice.compare(batch(), "/cfg", &entries).is_ok());
    assert_eq!(format!("{:?}", once), format!("{:?}", twice));
    assert_eq!(names(&once), vec!["theme-b".to_string(), "theme-a".to_string()]);
    assert_eq!(once.themes[1].version, Some("2".to_string()));
}

#[test]
fn compare_keeps_names_unique() {
    let entries: Vec<DirEntry> = Vec::new();
    let mut target = repo("community", vec![]);
    for round in 0..3 {
        let batch = TempThemes {
            theme: vec![
                remote("theme-a", &round.to_string()),
                remote("theme-b", "1"),
                remote("theme-a", "9"),
            ],
            definitions_version: 1,
        };
        assert!(target.compare(batch, "/cfg", &entries).is_ok());
        Repo::update_or_append(&mut target, &remote("theme-c", "3"));
    }
    let mut seen = names(&target);
    seen.sort();
    assert_eq!(seen, vec!["theme-a".to_string(), "theme-b".to_string(), "theme-c".to_string()]);
}

#[test]
fn compare_never_removes_a_theme() {
    let entries: Vec<DirEntry> = Vec::new();
    let mut target = repo("community", vec![remote("gone-upstream", "1")]);
    let batch = TempThemes { theme: vec![remote("theme-a", "1")], definitions_version: 1 };
    assert!(target.compare(batch, "/cfg", &entries).is_ok());
    assert_eq!(names(&target), vec!["gone-upstream".to_string(), "theme-a".to_string()]);
}

#[test]
fn compare_refuses_a_newer_batch() {
    let entries = vec![dir("theme-a")];
    let mut target = repo("community", vec![remote("theme-b", "0")]);
    let before = format!("{:?}", target);
    let batch = TempThemes {
        theme: vec![remote("theme-a", "1")],
        definitions_version: CURRENT_DEFINITIONS_VERSION + 1,
    };
    let result = target.compare(batch, "/cfg", &entries);
    assert!(matches!(result.unwrap_err().inner, LeftErrorKind::DefinitionsOutOfDate));
    assert_eq!(format!("{:?}", target), before);
}

#[test]
fn compare_refuses_a_newer_registry() {
    let entries = vec![dir("theme-a")];
    let mut target = repo("community", vec![remote("theme-b", "0")]);
    target.definitions_version = 2;
    let before = format!("{:?}", target);
    let batch = TempThemes { theme: vec![remote("theme-a", "1")], definitions_version: 1 };
    let result = target.compare(batch, "/cfg", &entries);
    assert!(matches!(result.unwrap_err().inner, LeftErrorKind::DefinitionsOutOfDate));
    assert_eq!(format!("{:?}", target), before);
}

#[test]
fn themes_carry_their_source() {
    let mut config = Config::new(None).default();
    config.repos[0].themes.push(remote("theme-a", "1"));
    config.repos[1].themes.push(remote("theme-z", "1"));
    let all = config.themes(false);
    assert_eq!(all.len(), 2);
    assert_eq!(all[0].source, Some("community".to_string()));
    assert_eq!(all[1].source, Some("LOCAL".to_string()));
    let remote_only = config.themes(true);
    assert_eq!(remote_only.len(), 1);
    assert_eq!(remote_only[0].name, "theme-a");
    assert_eq!(config.repos[0].themes[0].source, None);
}

#[test]
fn config_update_or_append_refreshes_what_a_registry_publishes() {
    let mut config = Config::new(None).default();
    let mut known = remote("theme-a", "1");
    known.directory = Some("/cfg/themes/theme-a".to_string());
    known.relative_directory = Some("kept".to_string());
    known.current = Some(true);
    config.repos[0].themes.push(known);
    let mut fresh = remote("theme-a", "2");
    fresh.description = Some("new".to_string());
    fresh.relative_directory = Some("ignored".to_string());
    let address = ("https://elsewhere".to_string(), "community".to_string());
    Config::update_or_append(&mut config, &fresh, (&address.0, &address.1));
    assert_eq!(config.repos.len(), 2);
    let theme = &config.repos[0].themes[0];
    assert_eq!(config.repos[0].themes.len(), 1);
    assert_eq!(theme.version, Some("2".to_string()));
    assert_eq!(theme.description, Some("new".to_string()));
    assert_eq!(theme.directory, Some("/cfg/themes/theme-a".to_string()));
    assert_eq!(theme.relative_directory, Some("kept".to_string()));
    assert_eq!(theme.current, Some(true));
}

#[test]
fn config_update_or_append_makes_a_missing_registry() {
    let mut config = Config::new(None);
    let address = ("localhost".to_string(), "LOCAL".to_string());
    Config::update_or_append(&mut config, &remote("theme-a", "1"), (&address.0, &address.1));
    Config::update_or_append(&mut config, &remote("theme-b", "1"), (&address.0, &address.1));
    assert_eq!(config.repos.len(), 1);
    assert_eq!(config.repos[0].name, "LOCAL");
    assert_eq!(config.repos[0].url, "localhost");
    assert_eq!(config.repos[0].definitions_version, CURRENT_DEFINITIONS_VERSION);
    assert_eq!(names(&config.repos[0]), vec!["theme-a".to_string(), "theme-b".to_string()]);
}

#[test]
fn registry_knows_its_themes() {
    let config = {
        let mut config = Config::new(None).default();
        config.repos[0].themes.push(remote("theme-a", "1"));
        config.repos[1].themes.push(remote("theme-z", "1"));
        config
    };
    assert!(config.repos[0].has_theme(&"theme-a".to_string()));
    assert!(!config.repos[0].has_theme(&"theme-z".to_string()));
    assert!(config.claims(&"theme-a".to_string()));
    assert!(!config.claims(&"theme-z".to_string()));
}

#[test]
fn entering_records_keeps_names_unique() {
    let mut config = Config::new(None).default();
    let local = ("localhost".to_string(), "LOCAL".to_string());
    let other = ("https://elsewhere".to_string(), "elsewhere".to_string());
    for round in 0..3 {
        Config::update_or_append(&mut config, &remote("theme-a", &round.to_string()), (&local.0, &local.1));
        Config::update_or_append(&mut config, &remote("theme-b", "1"), (&local.0, &local.1));
        Config::update_or_append(&mut config, &remote("theme-a", "1"), (&other.0, &other.1));
    }
    assert_eq!(config.repos.len(), 3);
    assert!(names(&config.repos[0]).is_empty());
    assert_eq!(names(&config.repos[1]), vec!["theme-a".to_string(), "theme-b".to_string()]);
    assert_eq!(names(&config.repos[2]), vec!["theme-a".to_string()]);
    assert_eq!(config.repos[1].themes[0].version, Some("2".to_string()));
}
