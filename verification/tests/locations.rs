use carrier::location::{
    avatar_cache_dir, avatar_file, clear_request_done, clear_webview_data_marker, dirs_config_dir,
    downloads_dir, early_settings_file, is_avatar_dir, push_macos_webview_store_paths, removal_of,
    settings_file, webview_data_paths, webview_data_places, Base, Environment, Found, KnownDirs, Location, Removal,
};
use carrier::platform::Platform;
use carrier::resolved::{path_standing, PathComponent, ResolvedPath, Standing};
use std::path::{Component, Path, PathBuf};

const NOTHING: Environment =
    Environment { home: false, appdata: false, xdg_config_home: false, userprofile: false };
const ALL: Environment =
    Environment { home: true, appdata: true, xdg_config_home: true, userprofile: true };

fn is_at(location: &Location, base: Base, parts: &[&str]) -> bool {
    location.base == base && location.parts == parts
}

#[test]
fn configuration_directories() {
    let mac = dirs_config_dir(Platform::Macos, &ALL).unwrap();
    assert!(is_at(&mac, Base::Home, &["Library/Application Support"]));
    let windows = dirs_config_dir(Platform::Windows, &ALL).unwrap();
    assert!(is_at(&windows, Base::AppData, &[]));
    let linux = dirs_config_dir(Platform::Linux, &ALL).unwrap();
    assert!(is_at(&linux, Base::XdgConfigHome, &[]));
    let plain = dirs_config_dir(Platform::Linux, &Environment { home: true, ..NOTHING }).unwrap();
    assert!(is_at(&plain, Base::Home, &[".config"]));
    for platform in [Platform::Macos, Platform::Windows, Platform::Linux] {
        assert!(dirs_config_dir(platform, &NOTHING).is_none());
        assert!(early_settings_file(platform, &NOTHING).is_none());
    }
    assert!(dirs_config_dir(Platform::Windows, &Environment { appdata: false, ..ALL }).is_none());
    assert!(dirs_config_dir(Platform::Macos, &Environment { home: false, ..ALL }).is_none());
}

#[test]
fn settings_files() {
    let early = early_settings_file(Platform::Linux, &ALL).unwrap();
    assert!(is_at(
        &early,
        Base::XdgConfigHome,
        &["io.github.kristofferr.carrier", "settings.json"]
    ));
    assert!(is_at(&settings_file(), Base::AppConfig, &["settings.json"]));
    assert!(is_at(
        &clear_webview_data_marker(),
        Base::AppConfig,
        &[".clear-webview-data-on-next-launch"]
    ));
}

#[test]
fn downloads_folders() {
    let windows = downloads_dir(Platform::Windows, &ALL).unwrap();
    assert!(is_at(&windows, Base::UserProfile, &["Downloads"]));
    for platform in [Platform::Macos, Platform::Linux] {
        assert!(is_at(&downloads_dir(platform, &ALL).unwrap(), Base::Home, &["Downloads"]));
        assert!(downloads_dir(platform, &Environment { home: false, ..ALL }).is_none());
    }
    assert!(downloads_dir(Platform::Windows, &Environment { userprofile: false, ..ALL }).is_none());
}

#[test]
fn web_view_stores_of_macos() {
    let mut paths = vec![Location::new(Base::AppCache)];
    let home = Location::new(Base::Home).join("x");
    push_macos_webview_store_paths(&mut paths, &home, "app");
    assert_eq!(paths.len(), 5);
    assert!(is_at(&paths[0], Base::AppCache, &[]));
    assert!(is_at(&paths[1], Base::Home, &["x", "Library/WebKit", "app"]));
    assert!(is_at(&paths[2], Base::Home, &["x", "Library/Caches", "app"]));
    assert!(is_at(&paths[3], Base::Home, &["x", "Library/HTTPStorages", "app.binarycookies"]));
    assert!(is_at(&paths[4], Base::Home, &["x", "Library/Cookies", "app.binarycookies"]));
}

#[test]
fn web_view_data_on_each_platform() {
    let known = KnownDirs { cache: true, home: true, local_data: true };
    let mac = webview_data_places(Platform::Macos, &known, "app");
    assert_eq!(mac.len(), 9);
    assert!(is_at(&mac[0], Base::AppCache, &[]));
    assert!(is_at(&mac[1], Base::Home, &["Library/WebKit", "app"]));
    assert!(is_at(&mac[8], Base::Home, &["Library/Cookies", "carrier.binarycookies"]));
    for platform in [Platform::Windows, Platform::Linux] {
        let other = webview_data_places(platform, &known, "app");
        assert_eq!(other.len(), 2);
        assert!(is_at(&other[0], Base::AppCache, &[]));
        assert!(is_at(&other[1], Base::AppLocalData, &[]));
    }
    let unknown = KnownDirs { cache: false, home: false, local_data: false };
    for platform in [Platform::Macos, Platform::Windows, Platform::Linux] {
        assert!(webview_data_places(platform, &unknown, "app").is_empty());
    }
}

#[test]
fn removals() {
    assert_eq!(removal_of(Found::Directory), Removal::Tree);
    assert_eq!(removal_of(Found::Other), Removal::File);
    assert_eq!(removal_of(Found::Nothing), Removal::Done);
    assert_eq!(removal_of(Found::Unknown), Removal::Fail);
}

#[test]
fn a_request_to_clear_is_kept_until_all_is_gone() {
    assert!(clear_request_done(&vec![]));
    assert!(clear_request_done(&vec![true, true]));
    assert!(!clear_request_done(&vec![true, false, true]));
    assert!(!clear_request_done(&vec![false]));
}

#[test]
fn avatar_files_belong_to_their_process() {
    let dir = avatar_cache_dir(42);
    assert!(is_at(&dir, Base::Temporary, &["carrier-avatars-42"]));
    assert!(is_avatar_dir(&dir.parts[0]));
    assert!(is_at(&avatar_file(42, 0), Base::Temporary, &["carrier-avatars-42", "0.png"]));
    assert!(is_at(
        &avatar_file(u32::MAX, 10),
        Base::Temporary,
        &["carrier-avatars-4294967295", "10.png"]
    ));
    assert_ne!(avatar_cache_dir(1).parts, avatar_cache_dir(11).parts);
    assert!(is_avatar_dir("carrier-avatars-"));
    assert!(!is_avatar_dir("carrier-avatar-1"));
    assert!(!is_avatar_dir("x-carrier-avatars-1"));
}

fn taken_apart(path: &str) -> ResolvedPath<PathBuf> {
    let components = Path::new(path)
        .components()
        .map(|component| match component {
            Component::Prefix(prefix) => {
                PathComponent::Prefix(prefix.as_os_str().as_encoded_bytes().to_vec())
            }
            Component::RootDir => PathComponent::RootDir,
            Component::CurDir => PathComponent::CurDir,
            Component::ParentDir => PathComponent::ParentDir,
            Component::Normal(name) => PathComponent::Normal(name.as_encoded_bytes().to_vec()),
        })
        .collect();
    ResolvedPath { components, path: PathBuf::from(path) }
}

const PATHS: [&str; 18] = [
    "/home/u/.cache/app",
    "/home/u/.local/share/app",
    "/home/u/.cache/app/",
    "/home/u/.cache",
    "/home/u/.cache//app",
    "/home/u/.cache-old",
    "/home/u/.cache!/x",
    "/",
    "",
    ".",
    "..",
    "../x",
    "!x",
    "a",
    "a/b",
    "/home/u/\u{e9}",
    "/home/u/z",
    "/home/./u/z",
];

#[test]
fn paths_stand_as_those_of_the_system() {
    for a in PATHS {
        for b in PATHS {
            let (x, y) = (Path::new(a), Path::new(b));
            let expected = if x < y {
                Standing::Before
            } else if x == y {
                Standing::Same
            } else {
                Standing::Behind
            };
            assert_eq!(path_standing(&taken_apart(a), &taken_apart(b)), expected, "{a} {b}");
        }
    }
}

#[test]
fn paths_to_clear_are_sorted_and_listed_once() {
    let found: Vec<ResolvedPath<PathBuf>> = PATHS.iter().map(|path| taken_apart(path)).collect();
    let mut expected: Vec<PathBuf> = PATHS.iter().map(PathBuf::from).collect();
    expected.sort();
    expected.dedup();
    let paths: Vec<PathBuf> = webview_data_paths(found).into_iter().map(|p| p.path).collect();
    assert_eq!(paths, expected);
    // Of paths that are the same the first one is kept as it was written.
    assert!(paths.iter().any(|p| p.as_os_str() == "/home/u/.cache/app"));
    assert!(!paths.iter().any(|p| p.as_os_str() == "/home/u/.cache/app/"));
}

#[test]
fn one_path_found_twice_is_cleared_once() {
    let both = vec![taken_apart("/data/app"), taken_apart("/data/app")];
    assert_eq!(webview_data_paths(both).len(), 1);
    let other = vec![taken_apart("/data/b"), taken_apart("/data/a")];
    let paths = webview_data_paths(other);
    assert_eq!(paths[0].path, PathBuf::from("/data/a"));
    assert_eq!(paths[1].path, PathBuf::from("/data/b"));
    assert!(webview_data_paths(Vec::<ResolvedPath<PathBuf>>::new()).is_empty());
}
