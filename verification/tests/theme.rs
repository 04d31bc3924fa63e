use leftwm_theme::models::{Config, DependencyL, Theme};

fn sample() -> Config {
    let mut config = Config::new(None).default();
    let mut a = Theme::new("theme-a", Some("first".to_string()), None);
    a.commit = Some("abc123".to_string());
    config.repos[0].themes.push(a);
    config.repos[0].themes.push(Theme::new("theme-b", None, Some("/cfg/themes/theme-b".to_string())));
    config.repos[1].themes.push(Theme::new("theme-a", None, Some("/cfg/themes/theme-a".to_string())));
    config
}

#[test]
fn test_apply_change_rename_dir_existing_theme() {
    let plan = Theme::apply_change_rename_dir("theme-x", "theme-y", "/tmp/config", true);
    assert!(plan.is_some());
    let (from, to) = plan.unwrap();
    assert_eq!(from, "/tmp/config/themes/theme-x");
    assert_eq!(to, "/tmp/config/themes/theme-y");
}

#[test]
fn test_apply_change_rename_dir_no_existing_theme() {
    assert!(Theme::apply_change_rename_dir("theme-x", "theme-y", "/tmp/config", false).is_none());
}

#[test]
fn no_theme_asks_for_a_renaming() {
    let theme = Theme::new("theme-a", None, None);
    assert_eq!(theme.get_name(), "theme-a");
    assert!(theme.apply_changes().is_none());
}

#[test]
fn new_theme_has_the_documented_fields() {
    let theme = Theme::new("theme-a", Some("nice".to_string()), Some("/d".to_string()));
    assert_eq!(theme.name, "theme-a");
    assert_eq!(theme.description, Some("nice".to_string()));
    assert_eq!(theme.directory, Some("/d".to_string()));
    assert_eq!(theme.repository, None);
    assert_eq!(theme.commit, None);
    assert_eq!(theme.version, Some("0.0.0".to_string()));
    assert_eq!(theme.leftwm_versions, Some("*".to_string()));
    assert_eq!(theme.current, Some(false));
    assert!(theme.dependencies.is_none());
    assert_eq!(theme.relative_directory, None);
    assert_eq!(theme.support_url, None);
    assert_eq!(theme.source, None);
    assert!(theme.is_installed());
    assert!(!Theme::new("theme-b", None, None).is_installed());
}

#[test]
fn default_dependency_is_leftwm() {
    let dependency = DependencyL::default();
    assert_eq!(dependency.program, "leftwm");
    assert_eq!(dependency.optional, None);
    assert_eq!(dependency.package, None);
}

#[test]
fn clone_keeps_everything() {
    let mut theme = Theme::new("theme-a", Some("nice".to_string()), None);
    theme.dependencies = Some(vec![
        DependencyL { program: "polybar".to_string(), optional: Some(true), package: None },
        DependencyL::default(),
    ]);
    theme.source = Some("community".to_string());
    assert_eq!(format!("{:?}", theme.clone()), format!("{:?}", theme));
}

#[test]
fn setters_change_one_field() {
    let mut theme = Theme::new("theme-a", None, None);
    theme.source("community".to_string()).current(true);
    assert_eq!(theme.source, Some("community".to_string()));
    assert_eq!(theme.current, Some(true));
    assert!(theme.is_current());
    theme.current(false);
    assert_eq!(theme.current, None);
    assert!(!theme.is_current());
    theme.set_relative_directory(Some("sub".to_string()));
    assert_eq!(theme.relative_directory(), Some("sub".to_string()));
    assert_eq!(theme.name, "theme-a");
}

#[test]
fn observed_takes_directory_and_mark() {
    let theme = Theme::new("theme-a", None, Some("/old".to_string()));
    let same = theme.observed(None, false);
    assert_eq!(same.directory, Some("/old".to_string()));
    assert_eq!(same.current, Some(false));
    let seen = theme.observed(Some("/new".to_string()), true);
    assert_eq!(seen.directory, Some("/new".to_string()));
    assert_eq!(seen.current, Some(true));
    assert_eq!(seen.name, "theme-a");
}

#[test]
fn description_and_commit() {
    let mut theme = Theme::new("theme-a", None, None);
    assert_eq!(theme.description_or_default(), "A LeftWM theme");
    theme.description = Some("mine".to_string());
    assert_eq!(theme.description_or_default(), "mine");
    assert_eq!(theme.pinned_commit(), None);
    theme.commit = Some("*".to_string());
    assert_eq!(theme.pinned_commit(), None);
    theme.commit = Some("abc123".to_string());
    assert_eq!(theme.pinned_commit(), Some("abc123".to_string()));
}

#[test]
fn find_takes_the_first_of_the_name() {
    let config = sample();
    let found = Theme::find(&config, "theme-a").unwrap();
    assert_eq!(found.source, Some("community".to_string()));
    assert_eq!(found.description, Some("first".to_string()));
    assert!(Theme::find(&config, "theme-c").is_none());
}

#[test]
fn find_installed_skips_what_is_not_installed() {
    let config = sample();
    let found = Theme::find_installed(&config, "theme-a").unwrap();
    assert_eq!(found.source, Some("LOCAL".to_string()));
    assert_eq!(found.directory, Some("/cfg/themes/theme-a".to_string()));
    assert!(Theme::find_installed(&config, "theme-c").is_none());
}

#[test]
fn find_all_lists_every_theme_of_the_name() {
    let config = sample();
    let found = Theme::find_all(&config, "theme-a").unwrap();
    assert_eq!(found.len(), 2);
    assert_eq!(found[0].source, Some("community".to_string()));
    assert_eq!(found[1].source, Some("LOCAL".to_string()));
    assert!(Theme::find_all(&config, "theme-c").unwrap().is_empty());
}

#[test]
fn find_mut_changes_the_theme_in_place() {
    let mut config = sample();
    Theme::find_mut(&mut config, "theme-a", "LOCAL").unwrap().directory = None;
    assert_eq!(config.repos[1].themes[0].directory, None);
    assert_eq!(config.repos[0].themes[0].commit, Some("abc123".to_string()));
    assert!(Theme::find_mut(&mut config, "theme-b", "LOCAL").is_none());
    assert!(Theme::find_mut(&mut config, "theme-a", "elsewhere").is_none());
}
