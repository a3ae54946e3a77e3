use tldr_cache::{Cache, CacheConfig, FsPath, FsView, Language, PathStatus, PlatformType};

fn path(parts: &[&str]) -> FsPath {
    FsPath { parts: parts.iter().map(|p| p.to_string()).collect() }
}

fn config_with_custom() -> CacheConfig {
    CacheConfig {
        pages_directory: path(&["root"]),
        custom_pages_directory: Some(path(&["custom"])),
        platforms: vec![PlatformType::Linux, PlatformType::OsX],
        languages: vec![Language("en".to_string()), Language("fr".to_string())],
    }
}

fn config_without_custom() -> CacheConfig {
    CacheConfig {
        pages_directory: path(&["root"]),
        custom_pages_directory: None,
        platforms: vec![PlatformType::Linux, PlatformType::OsX],
        languages: vec![Language("en".to_string()), Language("fr".to_string())],
    }
}

fn open(config: CacheConfig) -> Cache {
    Cache::open(config, PathStatus::Directory).unwrap().unwrap()
}

#[test]
fn find_page_nothing_anywhere_is_not_found() {
    let cache = open(config_with_custom());
    let fs = FsView { files: vec![] };
    let r = cache.find_page("tar", &fs);
    assert!(r.is_none());
}

#[test]
fn find_page_custom_override_wins_and_carries_no_patch() {
    let cache = open(config_with_custom());
    // A tree match and a patch exist too, but the override must win outright.
    let fs = FsView {
        files: vec![
            path(&["custom", "tar.page.md"]),
            path(&["custom", "tar.patch.md"]),
            path(&["root", "pages.en", "linux", "tar.md"]),
        ],
    };
    let r = cache.find_page("tar", &fs).unwrap();
    assert_eq!(r.page_path.parts, vec!["custom".to_string(), "tar.page.md".to_string()]);
    assert!(r.patch_path.is_none());
}

#[test]
fn find_page_second_platform_preferred_language() {
    // No custom override; the page exists only under the second platform in
    // the most preferred language, and not at all under the first platform.
    let cache = open(config_without_custom());
    let fs = FsView { files: vec![path(&["root", "pages.en", "osx", "tar.md"])] };
    let r = cache.find_page("tar", &fs).unwrap();
    assert_eq!(
        r.page_path.parts,
        vec![
            "root".to_string(),
            "pages.en".to_string(),
            "osx".to_string(),
            "tar.md".to_string()
        ]
    );
    assert!(r.patch_path.is_none());
}

#[test]
fn find_page_platform_order_dominates_language_order() {
    // A page for the first platform in the less preferred language must beat
    // a page for the second platform in the most preferred language.
    let cache = open(config_without_custom());
    let fs = FsView {
        files: vec![
            path(&["root", "pages.en", "osx", "tar.md"]),
            path(&["root", "pages.fr", "linux", "tar.md"]),
        ],
    };
    let r = cache.find_page("tar", &fs).unwrap();
    assert_eq!(
        r.page_path.parts,
        vec![
            "root".to_string(),
            "pages.fr".to_string(),
            "linux".to_string(),
            "tar.md".to_string()
        ]
    );
}

#[test]
fn find_page_tree_match_attaches_existing_patch() {
    let cache = open(config_with_custom());
    let fs = FsView {
        files: vec![
            path(&["root", "pages.en", "linux", "tar.md"]),
            path(&["custom", "tar.patch.md"]),
        ],
    };
    let r = cache.find_page("tar", &fs).unwrap();
    assert_eq!(
        r.page_path.parts,
        vec![
            "root".to_string(),
            "pages.en".to_string(),
            "linux".to_string(),
            "tar.md".to_string()
        ]
    );
    assert_eq!(
        r.patch_path.unwrap().parts,
        vec!["custom".to_string(), "tar.patch.md".to_string()]
    );
}

#[test]
fn find_page_tree_match_without_patch_has_none() {
    let cache = open(config_with_custom());
    let fs = FsView { files: vec![path(&["root", "pages.en", "linux", "tar.md"])] };
    let r = cache.find_page("tar", &fs).unwrap();
    assert!(r.patch_path.is_none());
}

#[test]
fn find_page_language_order_within_platform() {
    // Within one platform, the most preferred language wins.
    let cache = open(config_without_custom());
    let fs = FsView {
        files: vec![
            path(&["root", "pages.fr", "linux", "tar.md"]),
            path(&["root", "pages.en", "linux", "tar.md"]),
        ],
    };
    let r = cache.find_page("tar", &fs).unwrap();
    assert_eq!(
        r.page_path.parts,
        vec![
            "root".to_string(),
            "pages.en".to_string(),
            "linux".to_string(),
            "tar.md".to_string()
        ]
    );
}

#[test]
fn probe_paths_lists_custom_then_tree_in_order() {
    let cache = open(config_with_custom());
    let probes: Vec<Vec<String>> =
        cache.probe_paths("tar").into_iter().map(|p| p.parts).collect();
    let expected: Vec<Vec<String>> = vec![
        vec!["custom".to_string(), "tar.page.md".to_string()],
        vec!["custom".to_string(), "tar.patch.md".to_string()],
        vec!["root".to_string(), "pages.en".to_string(), "linux".to_string(), "tar.md".to_string()],
        vec!["root".to_string(), "pages.fr".to_string(), "linux".to_string(), "tar.md".to_string()],
        vec!["root".to_string(), "pages.en".to_string(), "osx".to_string(), "tar.md".to_string()],
        vec!["root".to_string(), "pages.fr".to_string(), "osx".to_string(), "tar.md".to_string()],
    ];
    assert_eq!(probes, expected);
}

#[test]
fn directory_names_are_fixed() {
    assert_eq!(PlatformType::Linux.directory_name(), "linux");
    assert_eq!(PlatformType::OsX.directory_name(), "osx");
    assert_eq!(PlatformType::SunOs.directory_name(), "sunos");
    assert_eq!(PlatformType::Windows.directory_name(), "windows");
    assert_eq!(PlatformType::Android.directory_name(), "android");
    assert_eq!(PlatformType::FreeBsd.directory_name(), "freebsd");
    assert_eq!(PlatformType::NetBsd.directory_name(), "netbsd");
    assert_eq!(PlatformType::OpenBsd.directory_name(), "openbsd");
    assert_eq!(PlatformType::Common.directory_name(), "common");
    assert_eq!(Language("pt_BR".to_string()).directory_name(), "pages.pt_BR");
}

#[test]
fn find_page_with_empty_search_orders_only_matches_custom() {
    let config = CacheConfig {
        pages_directory: path(&["root"]),
        custom_pages_directory: Some(path(&["custom"])),
        platforms: vec![],
        languages: vec![],
    };
    let cache = open(config);
    let fs = FsView { files: vec![path(&["custom", "tar.page.md"])] };
    let r = cache.find_page("tar", &fs).unwrap();
    assert_eq!(r.page_path.parts, vec!["custom".to_string(), "tar.page.md".to_string()]);
    assert!(cache.find_page("other", &fs).is_none());
}
