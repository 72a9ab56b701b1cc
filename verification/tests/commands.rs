use mrpm::commands::init::{default_artifacts_dir_for_loader, Init, UNKNOWN_GAME_VERSION};
use mrpm::commands::install::{command_failed, Install};
use mrpm::commands::search::{search_facets, search_filters};
use mrpm::commands::update::Update;
use mrpm::commands::versions::{color_by_type, game_versions_line, TypeColor};
use mrpm::manager::models::{GameVersion, InstallRef, Project};
use mrpm::modrinth::models::{GameVersion as ModrinthGameVersion, Loader, VersionType};
use mrpm::modrinth::{
    decimal_text, game_versions_url, project_url, project_versions_url, search_query, search_url,
    version_list_query, version_list_request, search_request, Index,
};

fn gv(v: &str, t: VersionType) -> ModrinthGameVersion {
    ModrinthGameVersion { version: v.to_string(), version_type: t, date: String::new(), major: false }
}

fn pairs(p: &[(String, String)]) -> Vec<(&str, &str)> {
    p.iter().map(|(a, b)| (a.as_str(), b.as_str())).collect()
}

#[test]
fn artifacts_dir_by_loader() {
    assert_eq!(default_artifacts_dir_for_loader(&Loader::Paper), "plugins");
    assert_eq!(default_artifacts_dir_for_loader(&Loader::Velocity), "plugins");
    assert_eq!(default_artifacts_dir_for_loader(&Loader::Fabric), "mods");
    assert_eq!(default_artifacts_dir_for_loader(&Loader::Rift), "mods");
}

#[test]
fn game_version_must_be_known() {
    let known = vec![gv("1.21.4", VersionType::Release), gv("24w44a", VersionType::Snapshot)];
    assert_eq!(Init::check_game_version(&"1.21.4".to_string(), &known), Ok("1.21.4".to_string()));
    assert_eq!(Init::check_game_version(&"1.99".to_string(), &known), Err(UNKNOWN_GAME_VERSION));
    assert_eq!(UNKNOWN_GAME_VERSION, "the specified game version does not exist");
}

#[test]
fn release_versions_are_offered() {
    let known = vec![
        gv("24w44a", VersionType::Snapshot),
        gv("1.21.4", VersionType::Release),
        gv("1.21.4-rc1", VersionType::Beta),
        gv("1.21.3", VersionType::Release),
    ];
    assert_eq!(Init::release_versions(&known), vec![1, 3]);
}

fn project_with(deps: &[(&str, &str)]) -> Project {
    let mut p = Project::new(
        GameVersion::Multiple(vec!["1.21.3".to_string(), "1.21.4".to_string()]),
        Loader::Fabric,
        "mods".to_string(),
        None,
    );
    for (k, v) in deps {
        p.dependencies.insert(k.to_string(), v.to_string());
    }
    p
}

#[test]
fn install_without_packages_uses_project_file() {
    let p = project_with(&[("sodium", "0.6"), ("lithium", "0.14")]);
    let (refs, cleanup) = Install { packages: vec![] }.packages_to_install(&p);
    assert!(cleanup);
    assert_eq!(
        refs,
        vec![
            InstallRef::from_pair("sodium".to_string(), "0.6".to_string()),
            InstallRef::from_pair("lithium".to_string(), "0.14".to_string()),
        ]
    );
    let named = vec![InstallRef::parse("iris").unwrap()];
    let (refs, cleanup) = Install { packages: named }.packages_to_install(&p);
    assert!(!cleanup);
    assert_eq!(refs, vec![InstallRef::parse("iris").unwrap()]);
}

#[test]
fn update_without_packages_uses_project_file_unpinned() {
    let p = project_with(&[("sodium", "0.6")]);
    let (refs, cleanup) = Update { packages: vec![] }.packages_to_update(&p);
    assert!(cleanup);
    assert_eq!(refs, vec![InstallRef::parse("sodium").unwrap()]);
}

#[test]
fn command_failure_combination() {
    assert!(command_failed(true, None));
    assert!(!command_failed(false, None));
    assert!(command_failed(true, Some(true)));
    assert!(!command_failed(true, Some(false)));
    assert!(!command_failed(false, Some(true)));
}

#[test]
fn search_filters_fall_back_to_project() {
    let p = project_with(&[]);
    let (l, v) = search_filters(None, None, Some(&p));
    assert_eq!(l, Some(Loader::Fabric));
    assert_eq!(v, Some(vec!["1.21.3".to_string(), "1.21.4".to_string()]));
    let (l, v) = search_filters(Some(Loader::Quilt), Some(vec!["1.20".to_string()]), Some(&p));
    assert_eq!(l, Some(Loader::Quilt));
    assert_eq!(v, Some(vec!["1.20".to_string()]));
    let (l, v) = search_filters(None, None, None);
    assert_eq!(l, None);
    assert_eq!(v, None);
}

#[test]
fn facets_are_built_per_filter() {
    let f = search_facets(Some(Loader::Paper), &Some(vec!["1.21".to_string(), "1.20".to_string()]));
    assert_eq!(
        f,
        vec![
            vec!["categories:paper".to_string()],
            vec!["versions:1.21".to_string(), "versions:1.20".to_string()]
        ]
    );
    assert!(search_facets(None, &None).is_empty());
}

#[test]
fn version_colors_and_lines() {
    assert_eq!(color_by_type(&VersionType::Snapshot), TypeColor::Blue);
    assert_eq!(color_by_type(&VersionType::Alpha), TypeColor::Red);
    assert_eq!(color_by_type(&VersionType::Beta), TypeColor::Yellow);
    assert_eq!(color_by_type(&VersionType::Release), TypeColor::Cyan);
    assert_eq!(game_versions_line(&Some(vec!["1.20".to_string(), "1.21".to_string()])), "1.20, 1.21");
    assert_eq!(game_versions_line(&None), "no game versions specified");
}

#[test]
fn request_paths() {
    assert_eq!(project_versions_url("worldedit"), "https://api.modrinth.com/v2/project/worldedit/version");
    assert_eq!(project_url("worldedit"), "https://api.modrinth.com/v2/project/worldedit");
    assert_eq!(game_versions_url(), "https://api.modrinth.com/v2/tag/game_version");
    assert_eq!(search_url(), "https://api.modrinth.com/v2/search");
}

#[test]
fn version_list_query_pairs() {
    let q = version_list_query(Some(&vec![Loader::Paper]), Some(&vec!["1.21".to_string()]), None);
    assert_eq!(pairs(&q), vec![("loaders", "[\"paper\"]"), ("game_versions", "[\"1.21\"]")]);
    let q = version_list_query(None, None, Some(true));
    assert_eq!(pairs(&q), vec![("featured", "true")]);
    let q = version_list_query(None, Some(&vec!["a\"b".to_string()]), Some(false));
    assert_eq!(pairs(&q), vec![("game_versions", "[\"a\\\"b\"]"), ("featured", "false")]);
}

#[test]
fn search_query_pairs() {
    let facets = vec![vec!["categories:paper".to_string()], vec!["versions:1.21".to_string()]];
    let q = search_query("world edit", Some(&facets), Some(Index::Downloads), Some(0), Some(10));
    assert_eq!(
        pairs(&q),
        vec![
            ("query", "world edit"),
            ("facets", "[[\"categories:paper\"],[\"versions:1.21\"]]"),
            ("index", "downloads"),
            ("offset", "0"),
            ("limit", "10"),
        ]
    );
    let q = search_query("x", None, None, None, None);
    assert_eq!(pairs(&q), vec![("query", "x")]);
}

#[test]
fn decimal_numbers() {
    assert_eq!(decimal_text(0), "0");
    assert_eq!(decimal_text(7), "7");
    assert_eq!(decimal_text(10), "10");
    assert_eq!(decimal_text(1234567890), "1234567890");
    assert_eq!(decimal_text(usize::MAX), usize::MAX.to_string());
}

#[test]
fn request_addresses_carry_the_form_encoded_query() {
    let facets = vec![vec!["categories:paper".to_string()]];
    assert_eq!(
        search_request("world edit", Some(&facets), Some(Index::Downloads), Some(0), Some(10)).unwrap(),
        "https://api.modrinth.com/v2/search?query=world+edit&facets=%5B%5B%22categories%3Apaper%22%5D%5D&index=downloads&offset=0&limit=10"
    );
    assert_eq!(
        version_list_request("worldedit", Some(&vec![Loader::Paper]), Some(&vec!["1.21".to_string()]), Some(true)).unwrap(),
        "https://api.modrinth.com/v2/project/worldedit/version?loaders=%5B%22paper%22%5D&game_versions=%5B%221.21%22%5D&featured=true"
    );
}

#[test]
fn json_text_escapes_quotes_backslashes_and_controls() {
    let q = version_list_query(None, Some(&vec!["a\\b".to_string(), "t\tx\u{1}".to_string(), "é".to_string()]), None);
    assert_eq!(pairs(&q), vec![("game_versions", "[\"a\\\\b\",\"t\\tx\\u0001\",\"é\"]")]);
    let q = version_list_query(None, Some(&vec![]), None);
    assert_eq!(pairs(&q), vec![("game_versions", "[]")]);
}
