use mrpm::dep_map::DepMap;
use mrpm::manager::models::{GameVersion, InstallRef, InstallState, InstalledDependency, Project};
use mrpm::manager::runs::{
    CleanupRun, InstallAction, InstallEvent, InstallRun, UninstallAction, UninstallEvent, UninstallRun,
};
use mrpm::manager::select::{choose_version, find_primary, newest_first, text_before};
use mrpm::manager::{InstallError, InstallPlan, InstallResult, Manager, UninstallError, UninstallTarget};
use mrpm::modrinth::models::{Hashes, Loader, Version, VersionFile, VersionType};

fn file(name: &str, primary: bool) -> VersionFile {
    VersionFile {
        hashes: Hashes { sha512: String::new(), sha1: String::new() },
        url: format!("https://cdn.example/{name}"),
        filename: name.to_string(),
        primary,
        size: 1,
        file_type: None,
    }
}

fn version(id: &str, number: &str, games: Option<&[&str]>, t: VersionType, files: Vec<VersionFile>) -> Version {
    Version {
        name: format!("Version {number}"),
        version_number: number.to_string(),
        changelog: None,
        dependencies: None,
        game_versions: games.map(|g| g.iter().map(|s| s.to_string()).collect()),
        version_type: t,
        loaders: vec![Loader::Paper],
        featured: false,
        status: None,
        id: id.to_string(),
        project_id: "p".to_string(),
        author_id: "a".to_string(),
        downloads: 0,
        changelog_url: None,
        files,
    }
}

fn project(min: Option<VersionType>) -> Project {
    Project::new(GameVersion::Single("1.21".to_string()), Loader::Paper, "plugins".to_string(), min)
}

fn empty_manager(min: Option<VersionType>) -> Manager {
    Manager::new(project(min), InstallState::new())
}

fn versions() -> Vec<Version> {
    vec![
        version("a", "7.0", Some(&["1.20"]), VersionType::Release, vec![file("we-7.0.jar", true)]),
        version("b", "7.4-beta", Some(&["1.21"]), VersionType::Beta, vec![file("we-7.4b.jar", true)]),
        version("c", "7.3", Some(&["1.21"]), VersionType::Release, vec![file("src.zip", false), file("we-7.3.jar", true)]),
        version("d", "6.0", None, VersionType::Release, vec![file("we-6.0.jar", true)]),
    ]
}

fn step(m: &mut Manager, run: &mut InstallRun, ev: InstallEvent) -> InstallAction {
    assert!(run.awaits(&ev));
    m.install_packages(run, ev)
}

#[test]
fn text_order_is_code_point_order() {
    assert!(text_before("1.20", "1.21"));
    assert!(text_before("1.2", "1.20"));
    assert!(text_before("1.10", "1.9"));
    assert!(!text_before("a", "a"));
    assert!(text_before("", "a"));
}

#[test]
fn newest_first_is_stable_and_descending() {
    let vs = versions();
    assert_eq!(newest_first(&vs), vec![1, 2, 0, 3]);
}

#[test]
fn choose_version_prefers_newest_admitted() {
    let vs = versions();
    assert_eq!(choose_version(&vs, None, VersionType::Release), Some(2));
    assert_eq!(choose_version(&vs, None, VersionType::Beta), Some(1));
    assert_eq!(choose_version(&vs, Some("6.0"), VersionType::Release), Some(3));
    assert_eq!(choose_version(&vs, Some("9.9"), VersionType::Release), None);
    assert_eq!(choose_version(&vec![], None, VersionType::Alpha), None);
}

#[test]
fn find_primary_takes_first_primary() {
    assert_eq!(find_primary(&vec![file("x", false), file("y", true), file("z", true)]), Some(1));
    assert_eq!(find_primary(&vec![file("x", false)]), None);
}

#[test]
fn fresh_install_run() {
    let mut m = empty_manager(None);
    let mut run = InstallRun::new(vec![InstallRef::parse("WorldEdit").unwrap()], false);
    let q = match step(&mut m, &mut run, InstallEvent::Continue) {
        InstallAction::FetchVersions(q) => q,
        other => panic!("unexpected {other:?}"),
    };
    assert_eq!(q.id_or_slug, "worldedit");
    assert_eq!(q.loaders, vec![Loader::Paper]);
    assert_eq!(q.game_versions, vec!["1.21".to_string()]);
    let a = step(&mut m, &mut run, InstallEvent::Fetched(Ok(versions())));
    assert_eq!(
        a,
        InstallAction::Download {
            url: "https://cdn.example/we-7.3.jar".to_string(),
            file_name: "we-7.3.jar".to_string()
        }
    );
    let a = step(&mut m, &mut run, InstallEvent::Downloaded(Ok(())));
    assert_eq!(a, InstallAction::Report { index: 0, outcome: Ok(InstallResult::New("7.3".to_string())) });
    assert_eq!(m.project.dependencies.get("worldedit"), Some(&"7.3".to_string()));
    assert_eq!(
        m.state.installed_dependencies.get("worldedit"),
        Some(&InstalledDependency {
            version_name: "7.3".to_string(),
            version_id: "c".to_string(),
            file_name: "we-7.3.jar".to_string()
        })
    );
    assert_eq!(step(&mut m, &mut run, InstallEvent::Continue), InstallAction::Finished(false));

    // asking again without a version keeps the installed one, without fetching
    let mut again = InstallRun::new(vec![InstallRef::parse("worldedit").unwrap()], false);
    assert_eq!(
        step(&mut m, &mut again, InstallEvent::Continue),
        InstallAction::Report { index: 0, outcome: Ok(InstallResult::Skipped("7.3".to_string())) }
    );
    assert_eq!(step(&mut m, &mut again, InstallEvent::Continue), InstallAction::Finished(false));
}

#[test]
fn forced_update_to_same_version_is_skipped_after_fetch() {
    let mut m = empty_manager(None);
    let mut run = InstallRun::new(vec![InstallRef::parse("worldedit").unwrap()], false);
    step(&mut m, &mut run, InstallEvent::Continue);
    step(&mut m, &mut run, InstallEvent::Fetched(Ok(versions())));
    step(&mut m, &mut run, InstallEvent::Downloaded(Ok(())));
    let mut update = InstallRun::new(vec![InstallRef::parse("worldedit").unwrap()], true);
    assert!(matches!(step(&mut m, &mut update, InstallEvent::Continue), InstallAction::FetchVersions(_)));
    assert_eq!(
        step(&mut m, &mut update, InstallEvent::Fetched(Ok(versions()))),
        InstallAction::Report { index: 0, outcome: Ok(InstallResult::Skipped("7.3".to_string())) }
    );
}

#[test]
fn replacing_install_removes_old_file_first() {
    let mut m = empty_manager(None);
    let mut run = InstallRun::new(vec![InstallRef::parse("worldedit@7.0").unwrap()], false);
    step(&mut m, &mut run, InstallEvent::Continue);
    assert_eq!(
        step(&mut m, &mut run, InstallEvent::Fetched(Ok(versions()))),
        InstallAction::Download {
            url: "https://cdn.example/we-7.0.jar".to_string(),
            file_name: "we-7.0.jar".to_string()
        }
    );
    step(&mut m, &mut run, InstallEvent::Downloaded(Ok(())));
    step(&mut m, &mut run, InstallEvent::Continue);

    let mut up = InstallRun::new(vec![InstallRef::parse("worldedit@7.3").unwrap()], false);
    assert!(matches!(step(&mut m, &mut up, InstallEvent::Continue), InstallAction::FetchVersions(_)));
    assert_eq!(
        step(&mut m, &mut up, InstallEvent::Fetched(Ok(versions()))),
        InstallAction::RemoveFile("we-7.0.jar".to_string())
    );
    assert_eq!(
        step(&mut m, &mut up, InstallEvent::FileRemoved(Ok(()))),
        InstallAction::Download {
            url: "https://cdn.example/we-7.3.jar".to_string(),
            file_name: "we-7.3.jar".to_string()
        }
    );
    assert_eq!(
        step(&mut m, &mut up, InstallEvent::Downloaded(Ok(()))),
        InstallAction::Report {
            index: 0,
            outcome: Ok(InstallResult::Updated("7.0".to_string(), "7.3".to_string()))
        }
    );
    assert_eq!(m.project.dependencies.get("worldedit"), Some(&"7.3".to_string()));
}

#[test]
fn install_errors_are_reported_per_package() {
    let mut m = empty_manager(None);
    let refs = vec![
        InstallRef::parse("broken").unwrap(),
        InstallRef::parse("worldedit@9.9").unwrap(),
        InstallRef::parse("nofile").unwrap(),
        InstallRef::parse("worldedit").unwrap(),
    ];
    let mut run = InstallRun::new(refs, false);
    step(&mut m, &mut run, InstallEvent::Continue);
    let a = step(&mut m, &mut run, InstallEvent::Fetched(Err("connection refused".to_string())));
    assert_eq!(
        a,
        InstallAction::Report { index: 0, outcome: Err(InstallError::Fetch("connection refused".to_string())) }
    );
    assert!(matches!(step(&mut m, &mut run, InstallEvent::Continue), InstallAction::FetchVersions(_)));
    let a = step(&mut m, &mut run, InstallEvent::Fetched(Ok(versions())));
    assert_eq!(a, InstallAction::Report { index: 1, outcome: Err(InstallError::NoSuitableVersion) });
    assert_eq!(InstallError::NoSuitableVersion.message(), "no suitable version found");
    assert!(matches!(step(&mut m, &mut run, InstallEvent::Continue), InstallAction::FetchVersions(_)));
    let nofile = vec![version("x", "1.0", Some(&["1.21"]), VersionType::Release, vec![file("a.zip", false)])];
    let a = step(&mut m, &mut run, InstallEvent::Fetched(Ok(nofile)));
    assert_eq!(a, InstallAction::Report { index: 2, outcome: Err(InstallError::NoPrimaryFile("1.0".to_string())) });
    assert_eq!(InstallError::NoPrimaryFile("1.0".to_string()).message(), "no file found for version 1.0");
    assert!(matches!(step(&mut m, &mut run, InstallEvent::Continue), InstallAction::FetchVersions(_)));
    step(&mut m, &mut run, InstallEvent::Fetched(Ok(versions())));
    let a = step(&mut m, &mut run, InstallEvent::Downloaded(Err("404".to_string())));
    assert_eq!(a, InstallAction::Report { index: 3, outcome: Err(InstallError::Download("404".to_string())) });
    assert_eq!(step(&mut m, &mut run, InstallEvent::Continue), InstallAction::Finished(true));
    assert_eq!(m.project.dependencies.len(), 0);
    assert_eq!(m.state.installed_dependencies.len(), 0);
}

#[test]
fn failed_removal_of_previous_file_keeps_state() {
    let mut m = empty_manager(None);
    let mut run = InstallRun::new(vec![InstallRef::parse("worldedit@7.0").unwrap()], false);
    step(&mut m, &mut run, InstallEvent::Continue);
    step(&mut m, &mut run, InstallEvent::Fetched(Ok(versions())));
    step(&mut m, &mut run, InstallEvent::Downloaded(Ok(())));
    let mut up = InstallRun::new(vec![InstallRef::parse("worldedit@7.3").unwrap()], false);
    step(&mut m, &mut up, InstallEvent::Continue);
    step(&mut m, &mut up, InstallEvent::Fetched(Ok(versions())));
    assert_eq!(
        step(&mut m, &mut up, InstallEvent::FileRemoved(Err("permission denied".to_string()))),
        InstallAction::Report { index: 0, outcome: Err(InstallError::Remove("permission denied".to_string())) }
    );
    assert_eq!(m.project.dependencies.get("worldedit"), Some(&"7.0".to_string()));
    assert_eq!(step(&mut m, &mut up, InstallEvent::Continue), InstallAction::Finished(true));
}

#[test]
fn minimum_version_type_admits_betas() {
    let mut m = empty_manager(Some(VersionType::Beta));
    assert_eq!(m.project.minimum_version_type(), VersionType::Beta);
    let plan = m.plan_install("worldedit", None, &versions()).unwrap();
    match plan {
        InstallPlan::Download(p) => {
            assert_eq!(p.version_number, "7.4-beta");
            assert_eq!(p.replaced, None);
        }
        other => panic!("unexpected {other:?}"),
    }
    let mut run = InstallRun::new(vec![InstallRef::parse("worldedit").unwrap()], false);
    step(&mut m, &mut run, InstallEvent::Continue);
    step(&mut m, &mut run, InstallEvent::Fetched(Ok(versions())));
    assert_eq!(
        step(&mut m, &mut run, InstallEvent::Downloaded(Ok(()))),
        InstallAction::Report { index: 0, outcome: Ok(InstallResult::New("7.4-beta".to_string())) }
    );
}

fn installed_manager() -> Manager {
    let mut m = empty_manager(None);
    let mut run = InstallRun::new(vec![InstallRef::parse("worldedit").unwrap()], false);
    step(&mut m, &mut run, InstallEvent::Continue);
    step(&mut m, &mut run, InstallEvent::Fetched(Ok(versions())));
    step(&mut m, &mut run, InstallEvent::Downloaded(Ok(())));
    m
}

#[test]
fn uninstall_run_removes_file_then_forgets() {
    let mut m = installed_manager();
    m.project.dependencies.insert("listed".to_string(), "2.0".to_string());
    assert_eq!(m.uninstall_target("listed"), UninstallTarget::Forget("2.0".to_string()));
    let mut run = UninstallRun::new(vec!["worldedit".to_string(), "listed".to_string(), "ghost".to_string()]);
    assert_eq!(
        m.uninstall_packages(&mut run, UninstallEvent::Continue),
        UninstallAction::RemoveFile("we-7.3.jar".to_string())
    );
    assert_eq!(
        m.uninstall_packages(&mut run, UninstallEvent::FileRemoved(Ok(()))),
        UninstallAction::Report { index: 0, outcome: Ok("7.3".to_string()) }
    );
    assert!(!m.project.dependencies.contains_key("worldedit"));
    assert!(!m.state.installed_dependencies.contains_key("worldedit"));
    assert_eq!(
        m.uninstall_packages(&mut run, UninstallEvent::Continue),
        UninstallAction::Report { index: 1, outcome: Ok("2.0".to_string()) }
    );
    assert!(!m.project.dependencies.contains_key("listed"));
    let a = m.uninstall_packages(&mut run, UninstallEvent::Continue);
    assert_eq!(
        a,
        UninstallAction::Report { index: 2, outcome: Err(UninstallError::NotInstalled("ghost".to_string())) }
    );
    assert_eq!(UninstallError::NotInstalled("ghost".to_string()).message(), "package ghost is not installed");
    assert_eq!(m.uninstall_packages(&mut run, UninstallEvent::Continue), UninstallAction::Finished(true));
    assert_eq!(run.package(2), "ghost");
}

#[test]
fn uninstall_failure_keeps_package() {
    let mut m = installed_manager();
    let mut run = UninstallRun::new(vec!["worldedit".to_string()]);
    m.uninstall_packages(&mut run, UninstallEvent::Continue);
    assert_eq!(
        m.uninstall_packages(&mut run, UninstallEvent::FileRemoved(Err("busy".to_string()))),
        UninstallAction::Report { index: 0, outcome: Err(UninstallError::Remove("busy".to_string())) }
    );
    assert!(m.project.dependencies.contains_key("worldedit"));
    assert!(m.state.installed_dependencies.contains_key("worldedit"));
    assert_eq!(m.uninstall_packages(&mut run, UninstallEvent::Continue), UninstallAction::Finished(true));
}

#[test]
fn cleanup_removes_unlisted_packages() {
    let mut m = installed_manager();
    m.state.installed_dependencies.insert(
        "old".to_string(),
        InstalledDependency { version_name: "1.0".to_string(), version_id: "o".to_string(), file_name: "old.jar".to_string() },
    );
    m.state.installed_dependencies.insert(
        "stuck".to_string(),
        InstalledDependency { version_name: "2.0".to_string(), version_id: "s".to_string(), file_name: "stuck.jar".to_string() },
    );
    let leftovers = m.leftovers();
    assert_eq!(leftovers.len(), 2);
    let mut run = CleanupRun::new(&m);
    assert_eq!(
        m.uninstall_removed_packages(&mut run, UninstallEvent::Continue),
        UninstallAction::RemoveFile("old.jar".to_string())
    );
    assert_eq!(
        m.uninstall_removed_packages(&mut run, UninstallEvent::FileRemoved(Ok(()))),
        UninstallAction::Report { index: 0, outcome: Ok("1.0".to_string()) }
    );
    assert_eq!(run.leftover(0).key, "old");
    assert_eq!(
        m.uninstall_removed_packages(&mut run, UninstallEvent::Continue),
        UninstallAction::RemoveFile("stuck.jar".to_string())
    );
    assert_eq!(
        m.uninstall_removed_packages(&mut run, UninstallEvent::FileRemoved(Err("busy".to_string()))),
        UninstallAction::Report { index: 1, outcome: Err(UninstallError::Remove("busy".to_string())) }
    );
    // still installed until the run finishes
    assert!(m.state.installed_dependencies.contains_key("old"));
    assert_eq!(m.uninstall_removed_packages(&mut run, UninstallEvent::Continue), UninstallAction::Finished(true));
    assert!(!m.state.installed_dependencies.contains_key("old"));
    assert!(m.state.installed_dependencies.contains_key("stuck"));
    assert!(m.state.installed_dependencies.contains_key("worldedit"));
}

#[test]
fn cleanup_with_nothing_to_do_finishes() {
    let mut m = installed_manager();
    let mut run = CleanupRun::new(&m);
    assert_eq!(m.uninstall_removed_packages(&mut run, UninstallEvent::Continue), UninstallAction::Finished(false));
}

#[test]
fn dep_map_operations() {
    let mut d: DepMap<String> = DepMap::new();
    d.insert("a".to_string(), "1".to_string());
    d.insert("b".to_string(), "2".to_string());
    d.insert("a".to_string(), "3".to_string());
    assert_eq!(d.len(), 2);
    assert_eq!(d.get("a"), Some(&"3".to_string()));
    assert_eq!(d.keys(), vec!["a".to_string(), "b".to_string()]);
    d.remove("a");
    assert_eq!(d.get("a"), None);
    assert!(d.contains_key("b"));
    let (k, v) = d.entry(0);
    assert_eq!((k.as_str(), v.as_str()), ("b", "2"));
    d.remove("zzz");
    assert_eq!(d.len(), 1);
}

#[test]
fn forget_installed_drops_named_keys() {
    let mut m = installed_manager();
    m.forget_installed(&vec!["worldedit".to_string(), "none".to_string()]);
    assert!(!m.state.installed_dependencies.contains_key("worldedit"));
    assert!(m.project.dependencies.contains_key("worldedit"));
}

#[test]
fn uninstall_after_install_restores_empty_records() {
    let mut m = installed_manager();
    let mut run = UninstallRun::new(vec!["worldedit".to_string()]);
    m.uninstall_packages(&mut run, UninstallEvent::Continue);
    m.uninstall_packages(&mut run, UninstallEvent::FileRemoved(Ok(())));
    assert_eq!(m.uninstall_packages(&mut run, UninstallEvent::Continue), UninstallAction::Finished(false));
    assert_eq!(m.project.dependencies.len(), 0);
    assert_eq!(m.state.installed_dependencies.len(), 0);
}

#[test]
fn clean_run_without_failures_leaves_only_listed_packages() {
    let mut m = installed_manager();
    for (k, f) in [("x", "x.jar"), ("y", "y.jar")] {
        m.state.installed_dependencies.insert(
            k.to_string(),
            InstalledDependency { version_name: "1".to_string(), version_id: k.to_string(), file_name: f.to_string() },
        );
    }
    let mut run = CleanupRun::new(&m);
    let mut event = UninstallEvent::Continue;
    loop {
        match m.uninstall_removed_packages(&mut run, event) {
            UninstallAction::RemoveFile(_) => event = UninstallEvent::FileRemoved(Ok(())),
            UninstallAction::Report { .. } => event = UninstallEvent::Continue,
            UninstallAction::Finished(is_err) => {
                assert!(!is_err);
                break;
            }
        }
    }
    for k in m.state.installed_dependencies.keys() {
        assert!(m.project.dependencies.contains_key(&k));
    }
    assert_eq!(m.state.installed_dependencies.keys(), vec!["worldedit".to_string()]);
}

#[test]
fn repeated_install_run_changes_nothing() {
    let mut m = empty_manager(None);
    let refs = vec![InstallRef::parse("worldedit@6.0").unwrap(), InstallRef::parse("pl3xmap").unwrap()];
    let mut run = InstallRun::new(refs.clone(), false);
    assert!(matches!(step(&mut m, &mut run, InstallEvent::Continue), InstallAction::FetchVersions(_)));
    step(&mut m, &mut run, InstallEvent::Fetched(Ok(versions())));
    assert_eq!(
        step(&mut m, &mut run, InstallEvent::Downloaded(Ok(()))),
        InstallAction::Report { index: 0, outcome: Ok(InstallResult::New("6.0".to_string())) }
    );
    assert!(matches!(step(&mut m, &mut run, InstallEvent::Continue), InstallAction::FetchVersions(_)));
    let map = vec![version("m1", "1.4", Some(&["1.21"]), VersionType::Release, vec![file("pl3xmap.jar", true)])];
    step(&mut m, &mut run, InstallEvent::Fetched(Ok(map)));
    step(&mut m, &mut run, InstallEvent::Downloaded(Ok(())));
    assert_eq!(step(&mut m, &mut run, InstallEvent::Continue), InstallAction::Finished(false));
    let wanted_before = entries(&m.project.dependencies);
    let installed_before = entries(&m.state.installed_dependencies);
    assert_eq!(wanted_before.len(), 2);

    let mut again = InstallRun::new(refs, false);
    assert_eq!(
        step(&mut m, &mut again, InstallEvent::Continue),
        InstallAction::Report { index: 0, outcome: Ok(InstallResult::Skipped("6.0".to_string())) }
    );
    assert_eq!(
        step(&mut m, &mut again, InstallEvent::Continue),
        InstallAction::Report { index: 1, outcome: Ok(InstallResult::Skipped("1.4".to_string())) }
    );
    assert_eq!(step(&mut m, &mut again, InstallEvent::Continue), InstallAction::Finished(false));
    assert_eq!(entries(&m.project.dependencies), wanted_before);
    assert_eq!(entries(&m.state.installed_dependencies), installed_before);
}

fn entries<V: std::fmt::Debug>(map: &DepMap<V>) -> Vec<(String, String)> {
    (0..map.len())
        .map(|i| {
            let (k, v) = map.entry(i);
            (k.clone(), format!("{v:?}"))
        })
        .collect()
}

#[test]
fn install_two_named_packages_in_order() {
    let mut m = empty_manager(None);
    let refs = vec![InstallRef::parse("pl3xmap").unwrap(), InstallRef::parse("worldedit").unwrap()];
    let mut run = InstallRun::new(refs, false);
    match step(&mut m, &mut run, InstallEvent::Continue) {
        InstallAction::FetchVersions(q) => assert_eq!(q.id_or_slug, "pl3xmap"),
        other => panic!("unexpected {other:?}"),
    }
    let map = vec![version("m1", "1.21.4-525", Some(&["1.21"]), VersionType::Release, vec![file("pl3xmap.jar", true)])];
    step(&mut m, &mut run, InstallEvent::Fetched(Ok(map)));
    assert_eq!(
        step(&mut m, &mut run, InstallEvent::Downloaded(Ok(()))),
        InstallAction::Report { index: 0, outcome: Ok(InstallResult::New("1.21.4-525".to_string())) }
    );
    match step(&mut m, &mut run, InstallEvent::Continue) {
        InstallAction::FetchVersions(q) => assert_eq!(q.id_or_slug, "worldedit"),
        other => panic!("unexpected {other:?}"),
    }
    step(&mut m, &mut run, InstallEvent::Fetched(Ok(versions())));
    assert_eq!(
        step(&mut m, &mut run, InstallEvent::Downloaded(Ok(()))),
        InstallAction::Report { index: 1, outcome: Ok(InstallResult::New("7.3".to_string())) }
    );
    assert_eq!(step(&mut m, &mut run, InstallEvent::Continue), InstallAction::Finished(false));
    assert_eq!(m.project.dependencies.get("pl3xmap"), Some(&"1.21.4-525".to_string()));
    assert_eq!(m.project.dependencies.get("worldedit"), Some(&"7.3".to_string()));
    assert_eq!(m.state.installed_dependencies.len(), 2);
}
