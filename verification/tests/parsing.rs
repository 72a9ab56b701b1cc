use mrpm::logger::{DisplayList, Optional};
use mrpm::manager::models::{GameVersion, InstallRef, MISSING_ID, MISSING_VERSION};
use mrpm::modrinth::models::{Loader, VersionType, LOADER_PARSE_ERROR, VERSION_TYPE_PARSE_ERROR};
use mrpm::modrinth::{Index, INDEX_PARSE_ERROR};
use mrpm::text::{find_char, join, str_equal};

#[test]
fn install_ref_without_version_is_lowercased() {
    let r = InstallRef::parse("WorldEdit").unwrap();
    assert_eq!(r.id_or_slug, "worldedit");
    assert_eq!(r.version, None);
}

#[test]
fn install_ref_with_version_splits_at_first_at() {
    let r = InstallRef::parse("Pl3xMap@1.21.4-525").unwrap();
    assert_eq!(r.id_or_slug, "pl3xmap");
    assert_eq!(r.version, Some("1.21.4-525".to_string()));
    let r = InstallRef::parse("a@b@c").unwrap();
    assert_eq!(r.id_or_slug, "a");
    assert_eq!(r.version, Some("b@c".to_string()));
}

#[test]
fn install_ref_keeps_version_case() {
    let r = InstallRef::parse("ABC@Beta-2").unwrap();
    assert_eq!(r.id_or_slug, "abc");
    assert_eq!(r.version, Some("Beta-2".to_string()));
}

#[test]
fn install_ref_missing_id_is_refused() {
    assert_eq!(InstallRef::parse("@1.0").unwrap_err(), MISSING_ID);
    assert_eq!(MISSING_ID, "package id or slug must be defined before @");
}

#[test]
fn install_ref_missing_version_is_refused() {
    assert_eq!(InstallRef::parse("worldedit@").unwrap_err(), MISSING_VERSION);
    assert_eq!(MISSING_VERSION, "package version must be defined after @");
}

#[test]
fn install_ref_from_str_matches_parse() {
    let r: InstallRef = "Foo@2".parse().unwrap();
    assert_eq!(r, InstallRef::from_pair("foo".to_string(), "2".to_string()));
}

#[test]
fn install_ref_display_round_trip() {
    let r = InstallRef::parse("worldedit@7.3.0").unwrap();
    assert_eq!(r.to_display_string(), "worldedit@7.3.0");
    let again = InstallRef::parse(&r.to_display_string()).unwrap();
    assert_eq!(again, r);
    let plain = InstallRef::parse("luckperms").unwrap();
    assert_eq!(plain.to_display_string(), "luckperms");
}

#[test]
fn install_ref_unicode_lowercase() {
    let r = InstallRef::parse("ÄRGER").unwrap();
    assert_eq!(r.id_or_slug, "ärger");
}

#[test]
fn loader_names_round_trip() {
    for l in Loader::as_vec() {
        assert_eq!(Loader::parse(l.as_str()), Ok(l));
    }
    assert_eq!(Loader::as_vec().len(), 16);
    assert_eq!(Loader::Paper.as_str(), "paper");
    assert_eq!("neoforge".parse::<Loader>(), Ok(Loader::Neoforge));
}

#[test]
fn loader_unknown_name_is_refused() {
    assert_eq!(Loader::parse("Paper"), Err(LOADER_PARSE_ERROR));
    assert!(LOADER_PARSE_ERROR.starts_with("invalid value for Loader; valid values are: \n  - bukkit"));
    assert!(LOADER_PARSE_ERROR.ends_with("\n  - waterfall"));
}

#[test]
fn index_names_round_trip() {
    for i in Index::as_vec() {
        assert_eq!(Index::parse(i.as_str()), Ok(i));
    }
    assert_eq!(Index::Relevance.as_str(), "relevance");
    assert_eq!(Index::parse("popular"), Err(INDEX_PARSE_ERROR));
}

#[test]
fn version_type_names_and_stability() {
    assert_eq!(VersionType::parse("beta"), Ok(VersionType::Beta));
    assert_eq!(VersionType::parse("gamma"), Err(VERSION_TYPE_PARSE_ERROR));
    assert_eq!(VersionType::default(), VersionType::Release);
    assert!(VersionType::Release.at_least(&VersionType::Beta));
    assert!(VersionType::Beta.at_least(&VersionType::Beta));
    assert!(!VersionType::Alpha.at_least(&VersionType::Beta));
    assert!(VersionType::Snapshot.at_least(&VersionType::Beta));
    assert!(!VersionType::Snapshot.at_least(&VersionType::Release));
    assert_eq!(VersionType::Alpha.as_str(), "alpha");
}

#[test]
fn game_version_as_list() {
    let single = GameVersion::Single("1.21.4".to_string());
    assert_eq!(single.as_list(), &["1.21.4".to_string()][..]);
    let multiple = GameVersion::Multiple(vec!["1.21.3".to_string(), "1.21.4".to_string()]);
    assert_eq!(multiple.as_list().len(), 2);
    assert_eq!(multiple.as_list()[1], "1.21.4");
}

#[test]
fn display_list_and_optional() {
    let items = vec!["a".to_string(), "b".to_string(), "c".to_string()];
    assert_eq!(DisplayList(&items).to_display_string(), "[a, b, c]");
    let empty: Vec<String> = vec![];
    assert_eq!(DisplayList(&empty).to_display_string(), "[]");
    assert_eq!(Optional(Some("x".to_string())).to_display_string(), "Some(x)");
    assert_eq!(Optional(None).to_display_string(), "None");
}

#[test]
fn text_helpers() {
    assert_eq!(find_char("ab@c@", '@'), Some(2));
    assert_eq!(find_char("abc", '@'), None);
    assert!(str_equal("ä", "ä"));
    assert!(!str_equal("a", "ab"));
    assert_eq!(join(&vec!["1.20".to_string(), "1.21".to_string()], ", "), "1.20, 1.21");
    assert_eq!(join(&vec![], ", "), "");
}

#[test]
fn version_type_names_round_trip() {
    for t in [VersionType::Release, VersionType::Snapshot, VersionType::Beta, VersionType::Alpha] {
        assert_eq!(VersionType::parse(t.as_str()), Ok(t));
        assert_eq!(t.as_str().parse::<VersionType>(), Ok(t));
    }
}
