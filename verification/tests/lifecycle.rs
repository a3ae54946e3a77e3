use tldr_cache::{
    Cache, CacheConfig, CacheFile, CacheTree, DirEntryInfo, DirListing, Error, FsPath, Language,
    PathStatus, PlatformType,
};

fn path(parts: &[&str]) -> FsPath {
    FsPath { parts: parts.iter().map(|p| p.to_string()).collect() }
}

fn config(custom: bool) -> CacheConfig {
    CacheConfig {
        pages_directory: path(&["root"]),
        custom_pages_directory: if custom { Some(path(&["custom"])) } else { None },
        platforms: vec![PlatformType::Linux, PlatformType::Common],
        languages: vec![Language("en".to_string())],
    }
}

fn file_entry(name: &str) -> DirEntryInfo {
    DirEntryInfo { is_file: true, name: Some(name.to_string()) }
}

fn dir_entry(name: &str) -> DirEntryInfo {
    DirEntryInfo { is_file: false, name: Some(name.to_string()) }
}

#[test]
fn open_missing_root_is_no_cache_not_an_error() {
    let r = Cache::open(config(false), PathStatus::Missing).unwrap();
    assert!(r.is_none());
}

#[test]
fn open_directory_root_yields_a_handle() {
    let cache = Cache::open(config(false), PathStatus::Directory).unwrap().unwrap();
    assert_eq!(cache.config().pages_directory.parts, vec!["root".to_string()]);
}

#[test]
fn open_non_directory_root_is_an_error() {
    let r = Cache::open(config(false), PathStatus::Other);
    match r {
        Err(Error::NotADirectory { path }) => {
            assert_eq!(path.parts, vec!["root".to_string()]);
        },
        _ => panic!("expected a not-a-directory error"),
    }
}

#[test]
fn age_is_the_distance_from_the_modification_time() {
    let cache = Cache::open(config(false), PathStatus::Directory).unwrap().unwrap();
    assert_eq!(cache.age(100, 250).unwrap(), 150);
    assert_eq!(cache.age(7, 7).unwrap(), 0);
}

#[test]
fn age_with_future_modification_time_is_clock_skew() {
    let cache = Cache::open(config(false), PathStatus::Directory).unwrap().unwrap();
    assert!(matches!(cache.age(10, 5), Err(Error::ClockSkew)));
}

#[test]
fn page_directories_walk_languages_then_platforms() {
    let cache = Cache::open(config(false), PathStatus::Directory).unwrap().unwrap();
    let dirs: Vec<Vec<String>> =
        cache.page_directories().into_iter().map(|p| p.parts).collect();
    assert_eq!(
        dirs,
        vec![
            vec!["root".to_string(), "pages.en".to_string(), "linux".to_string()],
            vec!["root".to_string(), "pages.en".to_string(), "common".to_string()],
        ]
    );
}

#[test]
fn list_pages_is_sorted_deduplicated_and_suffix_stripped() {
    let cache = Cache::open(config(true), PathStatus::Directory).unwrap().unwrap();
    let tree = vec![
        DirListing {
            directory: path(&["root", "pages.en", "linux"]),
            entries: vec![
                file_entry("tar.md"),
                file_entry("apt.md"),
                file_entry("notes.txt"),
                dir_entry("subdir"),
            ],
        },
        DirListing {
            directory: path(&["root", "pages.en", "common"]),
            entries: vec![file_entry("tar.md")],
        },
    ];
    let custom = Some(DirListing {
        directory: path(&["custom"]),
        entries: vec![file_entry("mytool.page.md"), file_entry("tar.patch.md")],
    });
    let pages = cache.list_pages(&tree, &custom).unwrap();
    assert_eq!(
        pages,
        vec!["apt".to_string(), "mytool".to_string(), "tar".to_string()]
    );
}

#[test]
fn list_pages_twice_gives_identical_output() {
    let cache = Cache::open(config(false), PathStatus::Directory).unwrap().unwrap();
    let tree = vec![
        DirListing {
            directory: path(&["root", "pages.en", "linux"]),
            entries: vec![file_entry("zsh.md"), file_entry("awk.md"), file_entry("zsh.md")],
        },
        DirListing { directory: path(&["root", "pages.en", "common"]), entries: vec![] },
    ];
    let first = cache.list_pages(&tree, &None).unwrap();
    let second = cache.list_pages(&tree, &None).unwrap();
    assert_eq!(first, second);
    assert_eq!(first, vec!["awk".to_string(), "zsh".to_string()]);
}

#[test]
fn list_pages_missing_directories_are_just_empty() {
    let cache = Cache::open(config(false), PathStatus::Directory).unwrap().unwrap();
    let tree = vec![
        DirListing { directory: path(&["root", "pages.en", "linux"]), entries: vec![] },
        DirListing { directory: path(&["root", "pages.en", "common"]), entries: vec![] },
    ];
    let pages = cache.list_pages(&tree, &None).unwrap();
    assert!(pages.is_empty());
}

#[test]
fn list_pages_unreadable_file_name_fails_with_the_directory() {
    let cache = Cache::open(config(false), PathStatus::Directory).unwrap().unwrap();
    let tree = vec![
        DirListing { directory: path(&["root", "pages.en", "linux"]), entries: vec![] },
        DirListing {
            directory: path(&["root", "pages.en", "common"]),
            entries: vec![DirEntryInfo { is_file: true, name: None }],
        },
    ];
    match cache.list_pages(&tree, &None) {
        Err(Error::InvalidFilename { directory }) => {
            assert_eq!(
                directory.parts,
                vec!["root".to_string(), "pages.en".to_string(), "common".to_string()]
            );
        },
        _ => panic!("expected an invalid-filename error"),
    }
}

#[test]
fn old_custom_pages_detected_only_for_bare_page_or_patch_extensions() {
    let cache = Cache::open(config(true), PathStatus::Directory).unwrap().unwrap();
    assert!(cache.old_custom_pages_exist(&Some(vec!["foo.page".to_string()])));
    assert!(cache.old_custom_pages_exist(&Some(vec!["foo.patch".to_string()])));
    assert!(!cache.old_custom_pages_exist(&Some(vec!["foo.page.md".to_string()])));
    assert!(!cache.old_custom_pages_exist(&Some(vec!["foo.patch.md".to_string()])));
    assert!(!cache.old_custom_pages_exist(&Some(vec!["foo.md".to_string()])));
    // A name that is nothing but the would-be extension has no extension.
    assert!(!cache.old_custom_pages_exist(&Some(vec![".page".to_string()])));
    assert!(!cache.old_custom_pages_exist(&Some(vec![])));
    assert!(cache.old_custom_pages_exist(&Some(vec![
        "foo.page.md".to_string(),
        "bar.patch".to_string()
    ])));
}

#[test]
fn old_custom_pages_absent_without_a_custom_directory() {
    let cache = Cache::open(config(false), PathStatus::Directory).unwrap().unwrap();
    assert!(!cache.old_custom_pages_exist(&None));
}

#[test]
fn update_success_replaces_the_tree() {
    let cache = Cache::open(config(false), PathStatus::Directory).unwrap().unwrap();
    let current = CacheTree {
        files: vec![CacheFile {
            path: path(&["root", "pages.en", "linux", "tar.md"]),
            contents: b"old".to_vec(),
        }],
    };
    let staged = CacheTree {
        files: vec![CacheFile {
            path: path(&["root", "pages.en", "linux", "tar.md"]),
            contents: b"new".to_vec(),
        }],
    };
    let (outcome, tree) = cache.update(current, Ok(staged));
    assert!(outcome.is_ok());
    assert_eq!(tree.files.len(), 1);
    assert_eq!(tree.files[0].contents, b"new".to_vec());
}

#[test]
fn update_failure_leaves_every_file_untouched() {
    let cache = Cache::open(config(false), PathStatus::Directory).unwrap().unwrap();
    let current = CacheTree {
        files: vec![
            CacheFile {
                path: path(&["root", "pages.en", "linux", "tar.md"]),
                contents: b"tar page".to_vec(),
            },
            CacheFile {
                path: path(&["root", "pages.en", "common", "awk.md"]),
                contents: b"awk page".to_vec(),
            },
        ],
    };
    let (outcome, tree) = cache.update(current, Err("connection reset".to_string()));
    match outcome {
        Err(Error::TransferFailure { message }) => {
            assert_eq!(message, "connection reset".to_string());
        },
        _ => panic!("expected a transfer failure"),
    }
    assert_eq!(tree.files.len(), 2);
    assert_eq!(
        tree.files[0].path.parts,
        vec![
            "root".to_string(),
            "pages.en".to_string(),
            "linux".to_string(),
            "tar.md".to_string()
        ]
    );
    assert_eq!(tree.files[0].contents, b"tar page".to_vec());
    assert_eq!(tree.files[1].contents, b"awk page".to_vec());
}

#[test]
fn error_kinds_have_fixed_descriptions() {
    let e = Error::ClockSkew;
    assert_eq!(e.kind_description(), "cache modification time lies in the future");
    let e = Error::NotADirectory { path: path(&["root"]) };
    assert_eq!(e.kind_description(), "exists, but is not a directory");
}

#[test]
fn list_pages_orders_by_character_value() {
    let cache = Cache::open(config(false), PathStatus::Directory).unwrap().unwrap();
    let tree = vec![
        DirListing {
            directory: path(&["root", "pages.en", "linux"]),
            entries: vec![file_entry("a.md"), file_entry("B.md"), file_entry("1.md")],
        },
        DirListing { directory: path(&["root", "pages.en", "common"]), entries: vec![] },
    ];
    let pages = cache.list_pages(&tree, &None).unwrap();
    assert_eq!(pages, vec!["1".to_string(), "B".to_string(), "a".to_string()]);
}
