use leftwm_theme::errors::{LeftError, LeftErrorKind};
use leftwm_theme::models::config::CURRENT_DEFINITIONS_VERSION;
use leftwm_theme::models::probe::DirEntry;
use leftwm_theme::models::{Config, DependencyL, LeftWm, Repo, TempThemes, Theme};
use leftwm_theme::operations::apply::{
    checks, is_compatible, is_program_in_path, program_candidates,
};
use leftwm_theme::operations::install::{ask, choose_one};
use leftwm_theme::operations::migrate_toml_to_ron::migrate;
use leftwm_theme::operations::new::{is_name_char, Prefill};
use leftwm_theme::operations::search::is_match;
use leftwm_theme::operations::support::Help;
use leftwm_theme::operations::update::Source;
use leftwm_theme::operations::{
    Apply, AutoFind, Current, Install, List, Migrate, New, Search, Status, Support, Uninstall,
    Update, Upgrade,
};
use leftwm_theme::{Operation, Opt};

fn theme(name: &str, directory: Option<&str>) -> Theme {
    Theme::new(name, None, directory.map(|d| d.to_string()))
}

fn sample() -> Config {
    let mut config = Config::new(Some("/cfg".to_string())).default();
    let mut a = theme("theme-a", Some("/cfg/themes/theme-a"));
    a.current = Some(true);
    a.support_url = Some("https://help.example/a".to_string());
    config.repos[0].themes.push(a);
    config.repos[0].themes.push(theme("theme-b", None));
    config.repos[1].themes.push(theme("theme-z", Some("/cfg/themes/theme-z")));
    config
}

fn sourced(config: &Config, name: &str) -> Theme {
    Theme::find(config, name).unwrap()
}

fn host(version: &str) -> Option<LeftWm> {
    Some(LeftWm { version: version.to_string() })
}

fn friendly(e: &LeftError) -> String {
    match &e.inner {
        LeftErrorKind::UserFriendlyError(message) => message.clone(),
        other => panic!("not a message for the user: {:?}", other),
    }
}

#[test]
fn test_name_validation() {
    assert!(New::validate_name("test/theme").is_err());
    assert!(New::validate_name("test theme").is_err());
    assert!(New::validate_name("-testtheme").is_err());
    assert!(New::validate_name(".testtheme").is_err());
    assert!(New::validate_name("Testtheme").is_err());

    assert!(New::validate_name("testtheme").is_ok());
    assert!(New::validate_name("_testtheme").is_ok());
    assert!(New::validate_name("1testtheme").is_ok());
    assert!(New::validate_name("test1theme@").is_ok());
    assert!(New::validate_name("test_theme").is_ok());
    assert!(New::validate_name("test-theme").is_ok());
    assert!(New::validate_name("test.theme").is_ok());
    assert!(New::validate_name("test+theme").is_ok());
}

#[test]
fn name_validation_takes_only_the_listed_characters() {
    assert!(New::validate_name("a,b").is_err());
    assert!(New::validate_name("a:b").is_err());
    assert!(New::validate_name("a=b").is_err());
    assert!(New::validate_name("th\u{e9}me").is_err());
    assert!(New::validate_name("a-.b").is_ok());
    assert!(matches!(New::validate_name("").unwrap(), true));
    assert_eq!(friendly(&New::validate_name("A").unwrap_err()), "Theme name not valid.");
    assert!(is_name_char('z') && is_name_char('0') && is_name_char('@'));
    assert!(!is_name_char('/') && !is_name_char('Z') && !is_name_char(' '));
}

#[test]
fn test_match() {
    assert!(Search::fuzzy_matcher_match("apple pie", "apple"));
    assert!(Search::fuzzy_matcher_match("apple pie", "pie"));
    assert!(Search::fuzzy_matcher_match("Windows XP", "xp"));
    assert!(Search::fuzzy_matcher_match("Windows XP", "windows"));
    assert!(!Search::fuzzy_matcher_match("Windows XP", "zinbows"));
    assert!(Search::fuzzy_matcher_match("Soothe", "soo"));
    assert!(Search::fuzzy_matcher_match("Soothe", "soohe"));
}

#[test]
fn search_lists_the_matching_themes() {
    let config = sample();
    let found = Search { name: "thm-b".to_string() }.exec(&config);
    assert_eq!(found.len(), 1);
    assert_eq!(found[0].name, "theme-b");
    assert_eq!(found[0].source, Some("community".to_string()));
    assert_eq!(Search { name: "theme".to_string() }.exec(&config).len(), 3);
    assert!(Search { name: "q".to_string() }.exec(&config).is_empty());
    assert!(is_match(Some(0)));
    assert!(!is_match(None));
}

#[test]
fn test_update_repos() {
    let mut theme1 = theme("test-theme1", None);
    theme1.repository = Some("https://github.com/leftwm/testtheme1/".to_string());
    theme1.commit = Some("*".to_string());
    theme1.version = Some("0.0.5".to_string());
    theme1.leftwm_versions = Some("*".to_string());
    let mut theme2 = theme("test-theme2", None);
    theme2.repository = Some("https://github.com/leftwm/testtheme2/".to_string());
    theme2.commit = Some("*".to_string());
    theme2.version = Some("0.0.3".to_string());
    theme2.leftwm_versions = Some("*".to_string());
    let batch =
        TempThemes { theme: vec![theme1, theme2], definitions_version: CURRENT_DEFINITIONS_VERSION };

    let mut config: Config = Config {
        repos: vec![
            Repo {
                definitions_version: CURRENT_DEFINITIONS_VERSION,
                url: String::from("file:///tmp/repo.toml"),
                name: String::from("test-repo"),
                themes: Vec::new(),
            },
            Repo {
                definitions_version: CURRENT_DEFINITIONS_VERSION,
                url: String::from(
                    "https://raw.githubusercontent.com/leftwm/leftwm-community-themes/master/known.toml",
                ),
                name: String::from("community"),
                themes: Vec::new(),
            },
        ],
        config_dir: Some("/tmp/config".to_string()),
    };
    let entries: Vec<DirEntry> = Vec::new();

    assert!(Update::update_repos(&mut config, vec![Some(batch), None], "/tmp/config", &entries)
        .is_ok());
    let local_repo = config.repos.into_iter().find(|x| x.name == "test-repo").unwrap();
    assert_eq!(local_repo.themes.len(), 2);
    assert!(local_repo.clone().themes.into_iter().any(|x| x.name == "test-theme1"));
    assert!(local_repo.themes.into_iter().any(|x| x.name == "test-theme2"));
}

#[test]
fn default_configuration_takes_a_fetched_batch() {
    let mut config = Config::new(None).default();
    assert_eq!(config.repos.len(), 2);
    let batch = TempThemes {
        theme: vec![theme("one", None), theme("two", None)],
        definitions_version: CURRENT_DEFINITIONS_VERSION,
    };
    let entries: Vec<DirEntry> = Vec::new();
    assert!(config.repos[0].compare(batch, "/cfg", &entries).is_ok());
    let names: Vec<&str> = config.repos[0].themes.iter().map(|t| t.name.as_str()).collect();
    assert_eq!(names, vec!["one", "two"]);
    assert!(config.repos[0].themes.iter().all(|t| t.directory.is_none()));
    assert!(config.repos[1].themes.is_empty());
}

#[test]
fn update_stops_at_the_first_refusal() {
    let mut config = Config::new(None);
    for name in ["first", "second", "third"] {
        config.repos.push(Repo {
            url: format!("https://example.org/{}", name),
            name: name.to_string(),
            definitions_version: CURRENT_DEFINITIONS_VERSION,
            themes: Vec::new(),
        });
    }
    config.repos.push(Repo {
        url: "localhost".to_string(),
        name: "LOCAL".to_string(),
        definitions_version: CURRENT_DEFINITIONS_VERSION,
        themes: Vec::new(),
    });
    let batch = |version: i16| TempThemes { theme: vec![theme("t", None)], definitions_version: version };
    let entries = vec![DirEntry { name: "only-here".to_string(), is_dir: true, link_target: None }];
    let fetched = vec![Some(batch(1)), Some(batch(2)), Some(batch(1)), Some(batch(1))];
    let result = Update::update_repos(&mut config, fetched, "/cfg", &entries);
    assert!(matches!(result.unwrap_err().inner, LeftErrorKind::DefinitionsOutOfDate));
    assert_eq!(config.repos[0].themes.len(), 1);
    assert!(config.repos[1].themes.is_empty());
    assert!(config.repos[2].themes.is_empty());
    assert!(config.repos[3].themes.is_empty());
}

#[test]
fn update_syncs_the_local_registry_last() {
    let mut config = Config::new(None).default();
    let entries = vec![
        DirEntry { name: "remote-one".to_string(), is_dir: true, link_target: None },
        DirEntry { name: "only-here".to_string(), is_dir: true, link_target: None },
    ];
    let batch = TempThemes { theme: vec![theme("remote-one", None)], definitions_version: 1 };
    let ignored = TempThemes { theme: vec![theme("never", None)], definitions_version: 1 };
    let result = Update::update_repos(&mut config, vec![Some(batch), Some(ignored)], "/cfg", &entries);
    assert!(result.is_ok());
    assert_eq!(config.repos[0].themes[0].directory, Some("/cfg/themes/remote-one".to_string()));
    assert_eq!(config.repos[1].themes.len(), 1);
    assert_eq!(config.repos[1].themes[0].name, "only-here");
}

#[test]
fn update_source_follows_the_scheme() {
    let mut repo = Repo {
        url: "file:///tmp/some%20dir/repo.toml".to_string(),
        name: "test-repo".to_string(),
        definitions_version: 1,
        themes: Vec::new(),
    };
    assert!(matches!(Update::source(&repo).unwrap(), Source::File(path) if path == "/tmp/some%20dir/repo.toml"));
    repo.url = "HTTPS://Example.org".to_string();
    assert!(matches!(Update::source(&repo).unwrap(), Source::Remote(url) if url == "https://example.org/"));
    repo.url = "not a url".to_string();
    assert!(matches!(Update::source(&repo).unwrap_err().inner, LeftErrorKind::UrlParseError(_)));
    repo.name = "LOCAL".to_string();
    assert!(matches!(Update::source(&repo).unwrap(), Source::Local));
    let parts = Source::of_parts("file".to_string(), "/p".to_string(), "file:///p".to_string());
    assert!(matches!(parts, Source::File(path) if path == "/p"));
    let parts = Source::of_parts("ftp".to_string(), "/p".to_string(), "ftp://h/p".to_string());
    assert!(matches!(parts, Source::Remote(url) if url == "ftp://h/p"));
}

#[test]
fn update_lists_what_works() {
    let mut config = sample();
    config.repos[0].themes[1].leftwm_versions = Some(">=1.0,<2.0".to_string());
    let all = Update { no_list: false, incompatible: true }.exec(&config, &host("0.5.1"));
    assert_eq!(all.len(), 3);
    assert!(all[0].compatible);
    assert!(!all[1].compatible);
    assert_eq!(all[1].theme.name, "theme-b");
    assert_eq!(all[1].theme.source, Some("community".to_string()));
    let working = Update { no_list: false, incompatible: false }.exec(&config, &host("0.5.1"));
    assert_eq!(working.len(), 2);
    assert_eq!(working[1].theme.name, "theme-z");
    assert!(Update { no_list: true, incompatible: true }.exec(&config, &host("0.5.1")).is_empty());
    let unknown: Option<LeftWm> = None;
    assert!(Update { no_list: false, incompatible: false }.exec(&config, &unknown).is_empty());
}

#[test]
fn checks_need_every_program_and_a_fitting_version() {
    let mut wanted = theme("theme-a", None);
    wanted.dependencies = Some(vec![
        DependencyL { program: "polybar".to_string(), optional: None, package: None },
        DependencyL { program: "dunst".to_string(), optional: None, package: None },
    ]);
    assert!(checks(&wanted, &vec![true, true], &host("0.5.1")));
    assert!(!checks(&wanted, &vec![true, false], &host("0.5.1")));
    assert!(!checks(&wanted, &vec![true], &host("0.5.1")));
    assert!(!checks(&wanted, &vec![true, true], &host("not a version")));
    wanted.leftwm_versions = Some(">=1.0".to_string());
    assert!(!checks(&wanted, &vec![true, true], &host("0.5.1")));
    assert!(checks(&wanted, &vec![true, true], &host("1.0.0")));
    wanted.leftwm_versions = None;
    wanted.dependencies = None;
    assert!(checks(&wanted, &vec![], &host("0.5.1")));
    assert!(is_compatible(&wanted, &host("0.5.1")));
    let unknown: Option<LeftWm> = None;
    assert!(!is_compatible(&wanted, &unknown));
}

#[test]
fn program_is_looked_for_in_each_directory() {
    assert_eq!(
        program_candidates("polybar", "/usr/bin:/bin"),
        vec!["/usr/bin/polybar".to_string(), "/bin/polybar".to_string()]
    );
    assert_eq!(program_candidates("p", ""), vec!["/p".to_string()]);
    assert_eq!(
        program_candidates("p", ":a::b:"),
        vec!["/p".to_string(), "a/p".to_string(), "/p".to_string(), "b/p".to_string(), "/p".to_string()]
    );
    assert_eq!(program_candidates("p", "/\u{e9}t\u{e9}"), vec!["/\u{e9}t\u{e9}/p".to_string()]);
    assert!(is_program_in_path(&vec![false, true]));
    assert!(!is_program_in_path(&vec![false, false]));
    assert!(!is_program_in_path(&vec![]));
}

#[test]
fn apply_selects_an_installed_theme() {
    let config = sample();
    let apply = |name: &str| Apply { name: name.to_string(), no_reset: false, override_checks: false };
    assert_eq!(apply("theme-a").select(&config).unwrap().source, Some("community".to_string()));
    assert_eq!(friendly(&apply("theme-b").select(&config).unwrap_err()), "Theme not installed");
    assert_eq!(friendly(&apply("theme-c").select(&config).unwrap_err()), "Theme not found");
}

#[test]
fn apply_allows_what_passed_or_is_overridden() {
    let strict = Apply { name: "t".to_string(), no_reset: false, override_checks: false };
    let lax = Apply { name: "t".to_string(), no_reset: false, override_checks: true };
    assert!(strict.allow(true).is_ok());
    assert_eq!(friendly(&strict.allow(false).unwrap_err()), "Not all prerequirements passed");
    assert!(lax.allow(false).is_ok());
}

#[test]
fn apply_marks_exactly_one_theme() {
    let mut config = sample();
    config.repos[0].themes[1].current = Some(true);
    config.repos[1].themes[0].current = None;
    let apply = Apply { name: "theme-z".to_string(), no_reset: true, override_checks: false };
    let chosen = apply.select(&config).unwrap();
    assert!(apply.exec(&mut config, &chosen).is_ok());
    assert_eq!(config.repos[0].themes[0].current, Some(false));
    assert_eq!(config.repos[0].themes[1].current, Some(false));
    assert_eq!(config.repos[1].themes[0].current, Some(true));
    let marked: Vec<Theme> =
        config.themes(false).into_iter().filter(|t| t.current == Some(true)).collect();
    assert_eq!(marked.len(), 1);
    assert_eq!(marked[0].name, "theme-z");
    assert_eq!(marked[0].directory, chosen.directory);
    assert!(marked[0].directory.is_some());
}

#[test]
fn apply_fails_for_a_theme_that_its_registry_lost() {
    let mut config = sample();
    let mut stray = theme("theme-q", Some("/cfg/themes/theme-q"));
    stray.source = Some("community".to_string());
    let apply = Apply { name: "theme-q".to_string(), no_reset: true, override_checks: false };
    let result = apply.exec(&mut config, &stray);
    assert_eq!(friendly(&result.unwrap_err()), "Theme not found");
    assert!(config.themes(false).iter().all(|t| t.current == Some(false)));
    stray.source = None;
    assert!(apply.exec(&mut config, &stray).is_ok());
    assert!(config.themes(false).iter().all(|t| t.current == Some(false)));
}

#[test]
fn list_shows_what_is_installed() {
    let config = sample();
    let shown = List { names: false }.exec(&config);
    assert_eq!(shown.len(), 2);
    assert_eq!(shown[0].name, "theme-a");
    assert_eq!(shown[0].source, Some("community".to_string()));
    assert_eq!(shown[1].name, "theme-z");
    assert_eq!(shown[1].source, Some("LOCAL".to_string()));
    assert!(List { names: true }.exec(&Config::new(None)).is_empty());
}

#[test]
fn upgrade_leaves_the_local_registry_alone() {
    let config = sample();
    assert_eq!(Upgrade { skipdbupdate: false }.sources(&config), vec![0]);
    assert!(Upgrade { skipdbupdate: true }.sources(&config).is_empty());
    let targets = Upgrade { skipdbupdate: true }.exec(&config);
    assert_eq!(targets.len(), 1);
    assert_eq!(targets[0].name, "theme-a");
}

#[test]
fn upgrade_checks_out_a_pinned_commit_after_a_fetch() {
    let mut pinned = theme("theme-a", Some("/cfg/themes/theme-a"));
    assert_eq!(Upgrade::after_fetch(&pinned, true), None);
    pinned.commit = Some("*".to_string());
    assert_eq!(Upgrade::after_fetch(&pinned, true), None);
    pinned.commit = Some("abc123".to_string());
    assert_eq!(Upgrade::after_fetch(&pinned, true), Some("abc123".to_string()));
    assert_eq!(Upgrade::after_fetch(&pinned, false), None);
}

#[test]
fn empty_body_holds_no_batch() {
    assert!(!Update::holds_batch(""));
    assert!(Update::holds_batch(" "));
    assert!(Update::holds_batch("[[theme]]\nname = \"a\"\n"));
}

#[test]
fn status_counts_and_reports() {
    let mut config = sample();
    let (report, outcome) = Status { error: true }.exec(&config);
    assert!(outcome.is_ok());
    assert_eq!(report.installed, 2);
    assert_eq!(report.current.len(), 1);
    assert_eq!(report.current[0].name, "theme-a");
    assert_eq!(report.current[0].source, Some("community".to_string()));
    config.repos[0].themes[0].current = Some(false);
    let (report, outcome) = Status { error: true }.exec(&config);
    assert_eq!(friendly(&outcome.unwrap_err()), "Error! No theme set.");
    assert_eq!(report.installed, 2);
    assert!(report.current.is_empty());
    let (_, outcome) = Status { error: false }.exec(&config);
    assert!(outcome.is_ok());
}

#[test]
fn support_finds_the_help_page() {
    let config = sample();
    let help = |name: &str| Support { name: name.to_string() }.exec(&config);
    assert!(matches!(help("theme-a"), Help::Page(url) if url == "https://help.example/a"));
    assert!(matches!(help("theme-b"), Help::NoPage));
    assert!(matches!(help("theme-c"), Help::UnknownTheme));
}

#[test]
fn uninstall_forgets_the_directory() {
    let mut config = sample();
    let uninstall = Uninstall { name: "theme-z".to_string(), noconfirm: false };
    let chosen = uninstall.select(&config).unwrap();
    assert_eq!(chosen.directory, Some("/cfg/themes/theme-z".to_string()));
    assert!(uninstall.confirmed(true));
    assert!(!uninstall.confirmed(false));
    assert!(Uninstall { name: "theme-z".to_string(), noconfirm: true }.confirmed(false));
    assert!(uninstall.exec(&mut config, &chosen).is_ok());
    assert_eq!(config.repos[1].themes[0].directory, None);
    assert_eq!(config.repos[0].themes[0].directory, Some("/cfg/themes/theme-a".to_string()));
    let missing = Uninstall { name: "theme-b".to_string(), noconfirm: true };
    assert_eq!(friendly(&missing.select(&config).unwrap_err()), "Theme not found");
    let mut unsourced = theme("theme-a", Some("/cfg/themes/theme-a"));
    let again = Uninstall { name: "theme-a".to_string(), noconfirm: true };
    assert_eq!(friendly(&again.exec(&mut config, &unsourced).unwrap_err()), "No source found");
    unsourced.source = Some("elsewhere".to_string());
    assert_eq!(
        friendly(&again.exec(&mut config, &unsourced).unwrap_err()),
        "Could not find theme"
    );
    assert_eq!(config.repos[0].themes[0].directory, Some("/cfg/themes/theme-a".to_string()));
}

#[test]
fn install_picks_and_records() {
    let mut config = sample();
    config.repos[1].themes.push(theme("theme-b", None));
    let install = Install { git: false, path: false, name: "theme-b".to_string() };
    let found = install.exec(&config);
    assert_eq!(found.len(), 2);
    assert!(matches!(choose_one(&found), Ok(None)));
    assert!(matches!(ask(&found, None), Ok(None)));
    assert!(matches!(ask(&found, Some(2)), Ok(None)));
    assert!(matches!(ask(&found, Some(1)), Ok(Some(1))));
    let mut chosen = found[1].clone();
    assert_eq!(
        friendly(&install.install_selected_theme(&chosen, "/cfg/themes").unwrap_err()),
        "Repository information missing for theme"
    );
    chosen.repository = Some("https://git.example/theme-b".to_string());
    let (repository, dir) = install.install_selected_theme(&chosen, "/cfg/themes").unwrap();
    assert_eq!(repository, "https://git.example/theme-b");
    assert_eq!(dir, "/cfg/themes/theme-b");
    assert!(install.add_to_config_and_save(&chosen, &mut config, dir).is_ok());
    assert_eq!(config.repos[1].themes[1].directory, Some("/cfg/themes/theme-b".to_string()));
    assert_eq!(config.repos[0].themes[1].directory, None);
    chosen.source = None;
    assert_eq!(
        friendly(&install.add_to_config_and_save(&chosen, &mut config, "/x".to_string()).unwrap_err()),
        "Theme not found in db"
    );
    chosen.source = Some("elsewhere".to_string());
    assert_eq!(
        friendly(&install.add_to_config_and_save(&chosen, &mut config, "/x".to_string()).unwrap_err()),
        "Theme not found in db"
    );
}

#[test]
fn install_choice_of_one_or_none() {
    let one = vec![theme("theme-a", None)];
    assert!(matches!(choose_one(&one), Ok(Some(0))));
    let none: Vec<Theme> = Vec::new();
    assert_eq!(friendly(&choose_one(&none).unwrap_err()), "No themes with that name were found");
    let installed = vec![theme("theme-a", None), theme("theme-a", Some("/d"))];
    assert_eq!(friendly(&ask(&installed, Some(0)).unwrap_err()), "Theme already installed");
}

#[test]
fn new_theme_needs_a_free_and_valid_name() {
    let mut config = sample();
    let new = |name: &str| New { name: name.to_string() };
    assert!(new("fresh").exec(&config).is_ok());
    assert_eq!(
        friendly(&new("theme-a").exec(&config).unwrap_err()),
        "A theme with that name already exists"
    );
    assert_eq!(friendly(&new("Fresh").exec(&config).unwrap_err()), "Theme name not valid.");
    new("fresh").register(&mut config, "/cfg/themes/fresh".to_string());
    let local = &config.repos[1];
    assert_eq!(local.themes.len(), 2);
    assert_eq!(local.themes[1].name, "fresh");
    assert_eq!(local.themes[1].directory, Some("/cfg/themes/fresh".to_string()));
    assert_eq!(local.themes[1].version, Some("0.0.0".to_string()));
    assert!(new("fresh").exec(&config).is_err());
}

#[test]
fn prefill_follows_the_answer() {
    assert_eq!(Prefill::from_line(" 0\n"), Some(Prefill::Lemonbar));
    assert_eq!(Prefill::from_line("1"), Some(Prefill::Polybar));
    assert_eq!(Prefill::from_line("2\n"), Some(Prefill::Xmobar));
    assert_eq!(Prefill::from_line("3"), Some(Prefill::Nothing));
    assert_eq!(Prefill::from_line("4"), None);
    assert_eq!(Prefill::from_line(""), None);
    assert_eq!(Prefill::from_answer(&"0".to_string()), Some(Prefill::Lemonbar));
    assert_eq!(Prefill::from_answer(&" 0".to_string()), None);
    assert_eq!(Prefill::Lemonbar.directory(), Some("/usr/share/leftwm/themes/basic_lemonbar/"));
    assert_eq!(Prefill::Polybar.directory(), Some("/usr/share/leftwm/themes/basic_polybar/"));
    assert_eq!(Prefill::Xmobar.directory(), Some("/usr/share/leftwm/themes/basic_xmobar/"));
    assert_eq!(Prefill::Nothing.directory(), None);
}

#[test]
fn current_reads_the_active_themes_file() {
    let mut config = sample();
    let current = Current { field: "border_width".to_string() };
    assert_eq!(current.exec(&config), Some("/cfg/themes/theme-a/theme.toml".to_string()));
    config.repos[1].themes[0].current = Some(true);
    assert_eq!(current.exec(&config), Some("/cfg/themes/theme-z/theme.toml".to_string()));
    config.repos[0].themes[1].current = Some(true);
    assert_eq!(current.exec(&config), None);
    assert_eq!(current.exec(&Config::new(None)), None);
    assert_eq!(current.found(Some("4".to_string())).unwrap(), "4");
    assert_eq!(friendly(&current.found(None).unwrap_err()), "That field was not found");
}

#[test]
fn migrate_writes_beside_the_theme_file() {
    let path = "/cfg/themes/theme-a/theme.toml".to_string();
    assert_eq!(migrate(&path, true).unwrap(), "/cfg/themes/theme-a/theme.ron");
    assert!(matches!(migrate(&path, false).unwrap_err().inner, LeftErrorKind::NoneError()));
    let args = Migrate { path };
    assert!(args.exec(true, true).is_ok());
    assert!(matches!(args.exec(true, false).unwrap_err().inner, LeftErrorKind::NoneError()));
    assert!(matches!(args.exec(false, true).unwrap_err().inner, LeftErrorKind::NoneError()));
}

#[test]
fn arguments_give_the_log_level() {
    let opt = |verbose: u8| Opt { verbose, operation: Operation::List(List { names: false }) };
    assert_eq!(opt(0).log_level(), "warn");
    assert_eq!(opt(1).log_level(), "info");
    assert_eq!(opt(2).log_level(), "debug");
    assert_eq!(opt(3).log_level(), "trace");
    assert_eq!(opt(255).log_level(), "trace");
    let auto = AutoFind { dir: None };
    assert!(auto.dir.is_none());
}
