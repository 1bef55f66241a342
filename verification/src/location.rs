//! Where the app keeps things on disk.
//!
//! A location is a directory that only the running system can tell, and the
//! parts that are joined to it one after the other. What directory that is, and
//! what separates the parts, is left to whoever resolves the location.

use vstd::prelude::*;

use crate::number::{decimal, decimal_is_injective, decimal_text};
use crate::platform::{Platform, APP_IDENTIFIER};
use crate::resolved::{first_of_its_kind, holds, increasing, sorted_paths, ResolvedPath};
use crate::text::{chars_of, concat_text, has_prefix, starts_with};

verus! {

/// A directory that is found at run time.
#[derive(Clone, Copy, PartialEq, Eq, Structural, Debug)]
pub enum Base {
    /// The directory in the environment variable `HOME`.
    Home,
    /// The directory in the environment variable `APPDATA`.
    AppData,
    /// The directory in the environment variable `XDG_CONFIG_HOME`.
    XdgConfigHome,
    /// The directory in the environment variable `USERPROFILE`.
    UserProfile,
    /// The app's own configuration directory.
    AppConfig,
    /// The app's own cache directory.
    AppCache,
    /// The app's own local data directory.
    AppLocalData,
    /// The system's directory for temporary files.
    Temporary,
}

/// A place on disk.
#[derive(Debug)]
pub struct Location {
    /// Where it starts.
    pub base: Base,
    /// What is joined to it, in order.
    pub parts: Vec<String>,
}

/// The model of a [`Location`].
#[verifier::ext_equal]
pub struct LocationView {
    /// Where it starts.
    pub base: Base,
    /// What is joined to it, in order.
    pub parts: Seq<Seq<char>>,
}

impl View for Location {
    type V = LocationView;

    open spec fn view(&self) -> LocationView {
        LocationView {
            base: self.base,
            parts: Seq::new(self.parts@.len(), |i: int| self.parts@[i]@),
        }
    }
}

impl LocationView {
    /// This location with `part` joined to it.
    pub open spec fn join(self, part: Seq<char>) -> LocationView {
        LocationView { base: self.base, parts: self.parts.push(part) }
    }
}

/// The location of `base` itself.
pub open spec fn at(base: Base) -> LocationView {
    LocationView { base, parts: Seq::<Seq<char>>::empty() }
}

/// The models of a row of locations.
pub open spec fn locations(list: Seq<Location>) -> Seq<LocationView> {
    Seq::new(list.len(), |i: int| list[i]@)
}

/// The model of an optional location.
pub open spec fn location_view(location: Option<Location>) -> Option<LocationView> {
    match location {
        Some(l) => Some(l@),
        None => None,
    }
}

impl Location {
    /// The location of `base` itself.
    pub fn new(base: Base) -> (location: Location)
        ensures
            location@ == at(base),
    {
        let location = Location { base, parts: Vec::new() };
        assert(location@ =~= at(base));
        location
    }

    /// This location with `part` joined to it.
    pub fn join(&self, part: &str) -> (joined: Location)
        ensures
            joined@ == self@.join(part@),
    {
        let mut parts: Vec<String> = Vec::new();
        let mut i: usize = 0;
        while i < self.parts.len()
            invariant
                i <= self.parts.len(),
                parts@ == self.parts@.take(i as int),
            decreases self.parts.len() - i,
        {
            parts.push(self.parts[i].clone());
            i += 1;
            assert(self.parts@.take(i as int) =~= self.parts@.take(i - 1).push(
                self.parts@[i - 1],
            ));
        }
        assert(parts@ =~= self.parts@);
        parts.push(part.to_string());
        let joined = Location { base: self.base, parts };
        assert(joined@ =~= self@.join(part@));
        joined
    }
}

// ---------------------------------------------------------------------------
// Settings and downloads
// ---------------------------------------------------------------------------

/// Which environment variables are set.
#[derive(Clone, Copy, PartialEq, Eq, Structural, Debug)]
pub struct Environment {
    /// `HOME`.
    pub home: bool,
    /// `APPDATA`.
    pub appdata: bool,
    /// `XDG_CONFIG_HOME`.
    pub xdg_config_home: bool,
    /// `USERPROFILE`.
    pub userprofile: bool,
}

/// The user's configuration directory, as far as the environment tells it.
pub open spec fn config_dir(platform: Platform, env: Environment) -> Option<LocationView> {
    match platform {
        Platform::Macos => if env.home {
            Some(at(Base::Home).join("Library/Application Support"@))
        } else {
            None
        },
        Platform::Windows => if env.appdata {
            Some(at(Base::AppData))
        } else {
            None
        },
        Platform::Linux => if env.xdg_config_home {
            Some(at(Base::XdgConfigHome))
        } else if env.home {
            Some(at(Base::Home).join(".config"@))
        } else {
            None
        },
    }
}

/// The user's configuration directory, as far as the environment tells it.
pub fn dirs_config_dir(platform: Platform, env: &Environment) -> (dir: Option<Location>)
    ensures
        location_view(dir) == config_dir(platform, *env),
{
    match platform {
        Platform::Macos => if env.home {
            Some(Location::new(Base::Home).join("Library/Application Support"))
        } else {
            None
        },
        Platform::Windows => if env.appdata {
            Some(Location::new(Base::AppData))
        } else {
            None
        },
        Platform::Linux => if env.xdg_config_home {
            Some(Location::new(Base::XdgConfigHome))
        } else if env.home {
            Some(Location::new(Base::Home).join(".config"))
        } else {
            None
        },
    }
}

/// Where the settings are found before the app is up.
pub open spec fn early_file(platform: Platform, env: Environment) -> Option<LocationView> {
    match config_dir(platform, env) {
        Some(dir) => Some(dir.join(APP_IDENTIFIER@).join("settings.json"@)),
        None => None,
    }
}

/// Where the settings are found before the app is up, which is when it is
/// decided whether a second instance may run.
pub fn early_settings_file(platform: Platform, env: &Environment) -> (file: Option<Location>)
    ensures
        location_view(file) == early_file(platform, *env),
{
    match dirs_config_dir(platform, env) {
        Some(dir) => Some(dir.join(APP_IDENTIFIER).join("settings.json")),
        None => None,
    }
}

/// Where the settings are kept.
pub fn settings_file() -> (file: Location)
    ensures
        file@ == at(Base::AppConfig).join("settings.json"@),
{
    Location::new(Base::AppConfig).join("settings.json")
}

/// Where downloads go.
pub open spec fn downloads(platform: Platform, env: Environment) -> Option<LocationView> {
    if platform == Platform::Windows {
        if env.userprofile {
            Some(at(Base::UserProfile).join("Downloads"@))
        } else {
            None
        }
    } else if env.home {
        Some(at(Base::Home).join("Downloads"@))
    } else {
        None
    }
}

/// Where downloads go, as far as the environment tells it.
pub fn downloads_dir(platform: Platform, env: &Environment) -> (dir: Option<Location>)
    ensures
        location_view(dir) == downloads(platform, *env),
{
    if platform == Platform::Windows {
        if env.userprofile {
            Some(Location::new(Base::UserProfile).join("Downloads"))
        } else {
            None
        }
    } else if env.home {
        Some(Location::new(Base::Home).join("Downloads"))
    } else {
        None
    }
}

// ---------------------------------------------------------------------------
// Clearing the data of the web view
// ---------------------------------------------------------------------------

/// The file whose presence asks for the web view's data to be cleared at the
/// next launch.
pub fn clear_webview_data_marker() -> (file: Location)
    ensures
        file@ == at(Base::AppConfig).join(".clear-webview-data-on-next-launch"@),
{
    Location::new(Base::AppConfig).join(".clear-webview-data-on-next-launch")
}

/// The four places where the web view of macOS keeps what belongs to `name`.
pub open spec fn macos_stores(home: LocationView, name: Seq<char>) -> Seq<LocationView> {
    seq![
        home.join("Library/WebKit"@).join(name),
        home.join("Library/Caches"@).join(name),
        home.join("Library/HTTPStorages"@).join(name + ".binarycookies"@),
        home.join("Library/Cookies"@).join(name + ".binarycookies"@),
    ]
}

/// Adds the places where the web view of macOS keeps what belongs to `name`.
pub fn push_macos_webview_store_paths(paths: &mut Vec<Location>, home: &Location, name: &str)
    ensures
        locations(final(paths)@) == locations(old(paths)@) + macos_stores(home@, name@),
        final(paths)@.len() == old(paths)@.len() + 4,
        forall|i: int| 0 <= i < old(paths)@.len() ==> final(paths)@[i] == old(paths)@[i],
{
    let cookies = concat_text(name, ".binarycookies");
    paths.push(home.join("Library/WebKit").join(name));
    paths.push(home.join("Library/Caches").join(name));
    paths.push(home.join("Library/HTTPStorages").join(cookies.as_str()));
    paths.push(home.join("Library/Cookies").join(cookies.as_str()));
    assert(locations(paths@) =~= locations(old(paths)@) + macos_stores(home@, name@));
}

/// Which of the app's directories the system could name.
#[derive(Clone, Copy, PartialEq, Eq, Structural, Debug)]
pub struct KnownDirs {
    /// The cache directory.
    pub cache: bool,
    /// The directory in `HOME`.
    pub home: bool,
    /// The local data directory.
    pub local_data: bool,
}

/// Every place that holds data of the web view, in the order in which the places
/// are found; one place can be found twice.
pub open spec fn data_places(
    platform: Platform,
    known: KnownDirs,
    identifier: Seq<char>,
) -> Seq<LocationView> {
    let cache = if known.cache {
        seq![at(Base::AppCache)]
    } else {
        Seq::<LocationView>::empty()
    };
    if platform == Platform::Macos {
        if known.home {
            cache + macos_stores(at(Base::Home), identifier) + macos_stores(
                at(Base::Home),
                "carrier"@,
            )
        } else {
            cache
        }
    } else if known.local_data {
        cache.push(at(Base::AppLocalData))
    } else {
        cache
    }
}

/// Every place that holds data of the web view. On macOS that includes what
/// older builds wrote under the name of the executable.
pub fn webview_data_places(platform: Platform, known: &KnownDirs, identifier: &str) -> (paths: Vec<
    Location,
>)
    ensures
        locations(paths@) == data_places(platform, *known, identifier@),
{
    let mut paths: Vec<Location> = Vec::new();
    if known.cache {
        paths.push(Location::new(Base::AppCache));
    }
    let ghost cache = locations(paths@);
    assert(cache =~= (if known.cache {
        seq![at(Base::AppCache)]
    } else {
        Seq::<LocationView>::empty()
    }));
    if platform == Platform::Macos {
        if known.home {
            let home = Location::new(Base::Home);
            push_macos_webview_store_paths(&mut paths, &home, identifier);
            push_macos_webview_store_paths(&mut paths, &home, "carrier");
        }
    } else if known.local_data {
        paths.push(Location::new(Base::AppLocalData));
        assert(locations(paths@) =~= cache.push(at(Base::AppLocalData)));
    }
    paths
}

/// The paths to clear of the web view's data, once its places are resolved: in
/// order, and none of them twice. Different places can turn out to be the same
/// path.
pub fn webview_data_paths<T>(resolved: Vec<ResolvedPath<T>>) -> (paths: Vec<ResolvedPath<T>>)
    ensures
        increasing(paths@),
        forall|i: int|
            0 <= i < paths@.len() ==> first_of_its_kind(resolved@, #[trigger] paths@[i]),
        forall|k: int| 0 <= k < resolved@.len() ==> holds(paths@, #[trigger] resolved@[k]),
{
    sorted_paths(resolved)
}

/// Clearing the web view's data never removes the home directory, nor anything
/// directly in it: each place is one of the app's own directories, or is two
/// parts away from the home directory, the first of them in `Library`.
pub proof fn clearing_spares_the_home_directory(
    platform: Platform,
    known: KnownDirs,
    identifier: Seq<char>,
    i: int,
)
    requires
        0 <= i < data_places(platform, known, identifier).len(),
    ensures
        ({
            let place = data_places(platform, known, identifier)[i];
            ||| place == at(Base::AppCache)
            ||| place == at(Base::AppLocalData)
            ||| place.base == Base::Home && place.parts.len() == 2 && starts_with(
                place.parts[0],
                "Library/"@,
            )
        }),
{
    reveal_strlit("Library/");
    reveal_strlit("Library/WebKit");
    reveal_strlit("Library/Caches");
    reveal_strlit("Library/HTTPStorages");
    reveal_strlit("Library/Cookies");
    assert("Library/WebKit"@.subrange(0, 8) =~= "Library/"@);
    assert("Library/Caches"@.subrange(0, 8) =~= "Library/"@);
    assert("Library/HTTPStorages"@.subrange(0, 8) =~= "Library/"@);
    assert("Library/Cookies"@.subrange(0, 8) =~= "Library/"@);
    let stores = macos_stores(at(Base::Home), identifier);
    let old_stores = macos_stores(at(Base::Home), "carrier"@);
    let cache_len: int = if known.cache {
        1
    } else {
        0
    };
    let place = data_places(platform, known, identifier)[i];
    if platform == Platform::Macos && known.home && i >= cache_len {
        if i < cache_len + 4 {
            assert(place == stores[i - cache_len]);
        } else {
            assert(place == old_stores[i - cache_len - 4]);
        }
    }
}

/// What is found at a place that is to be removed.
#[derive(Clone, Copy, PartialEq, Eq, Structural, Debug)]
pub enum Found {
    /// A directory.
    Directory,
    /// A file, or a link to anything.
    Other,
    /// Nothing.
    Nothing,
    /// It could not be told.
    Unknown,
}

/// How to remove what was found.
#[derive(Clone, Copy, PartialEq, Eq, Structural, Debug)]
pub enum Removal {
    /// Remove the directory and all in it.
    Tree,
    /// Remove the file.
    File,
    /// Nothing needs removing.
    Done,
    /// Report the failure.
    Fail,
}

/// How to remove what was found at a place. A link is removed itself, not what
/// it points to; a place that does not exist needs no removing.
pub fn removal_of(found: Found) -> (removal: Removal)
    ensures
        removal == (match found {
            Found::Directory => Removal::Tree,
            Found::Other => Removal::File,
            Found::Nothing => Removal::Done,
            Found::Unknown => Removal::Fail,
        }),
{
    match found {
        Found::Directory => Removal::Tree,
        Found::Other => Removal::File,
        Found::Nothing => Removal::Done,
        Found::Unknown => Removal::Fail,
    }
}

/// Whether every place was removed.
pub open spec fn all_removed(removed: Seq<bool>) -> bool {
    forall|i: int| 0 <= i < removed.len() ==> #[trigger] removed[i]
}

/// Whether the request to clear the web view's data is done with, given whether
/// each place was removed. After a single failure it is kept, so that the next
/// launch tries again.
pub fn clear_request_done(removed: &Vec<bool>) -> (done: bool)
    ensures
        done == all_removed(removed@),
{
    let mut i: usize = 0;
    while i < removed.len()
        invariant
            i <= removed.len(),
            forall|j: int| 0 <= j < i ==> #[trigger] removed@[j],
        decreases removed.len() - i,
    {
        if !removed[i] {
            assert(!removed@[i as int]);
            return false;
        }
        i += 1;
    }
    true
}

// ---------------------------------------------------------------------------
// Avatars
// ---------------------------------------------------------------------------

/// The name of the directory where process `pid` keeps avatars.
pub open spec fn avatar_dir_name(pid: nat) -> Seq<char> {
    "carrier-avatars-"@ + decimal(pid)
}

/// The directory where process `pid` keeps avatars. Each process has its own, so
/// that instances that run side by side do not delete each other's files.
pub fn avatar_cache_dir(pid: u32) -> (dir: Location)
    ensures
        dir@ == at(Base::Temporary).join(avatar_dir_name(pid as nat)),
{
    let name = concat_text("carrier-avatars-", decimal_text(pid as u64).as_str());
    Location::new(Base::Temporary).join(name.as_str())
}

/// The name of the file for avatar number `sequence`.
pub open spec fn avatar_file_name(sequence: nat) -> Seq<char> {
    decimal(sequence) + ".png"@
}

/// The file for avatar number `sequence` of process `pid`.
pub fn avatar_file(pid: u32, sequence: u64) -> (file: Location)
    ensures
        file@ == at(Base::Temporary).join(avatar_dir_name(pid as nat)).join(
            avatar_file_name(sequence as nat),
        ),
{
    let name = concat_text(decimal_text(sequence).as_str(), ".png");
    avatar_cache_dir(pid).join(name.as_str())
}

/// Whether a directory of temporary files with this name holds avatars, of this
/// process or of any other.
pub fn is_avatar_dir(name: &str) -> (yes: bool)
    ensures
        yes == starts_with(name@, "carrier-avatars-"@),
{
    has_prefix(&chars_of(name), &chars_of("carrier-avatars-"))
}

/// The sweep recognises every process's directory, and no two processes share
/// one.
pub proof fn avatar_dirs_are_recognised_and_private(a: nat, b: nat)
    ensures
        starts_with(avatar_dir_name(a), "carrier-avatars-"@),
        avatar_dir_name(a) == avatar_dir_name(b) ==> a == b,
{
    let prefix = "carrier-avatars-"@;
    assert(avatar_dir_name(a).subrange(0, prefix.len() as int) =~= prefix);
    assert(avatar_dir_name(a).skip(prefix.len() as int) =~= decimal(a));
    assert(avatar_dir_name(b).skip(prefix.len() as int) =~= decimal(b));
    decimal_is_injective(a, b);
}

/// No two avatars share a file: one is never written over while a notification
/// still shows it.
pub proof fn avatar_files_are_distinct(a: nat, b: nat)
    ensures
        avatar_file_name(a) == avatar_file_name(b) ==> a == b,
{
    let tail = ".png"@.len();
    assert(avatar_file_name(a).take(avatar_file_name(a).len() - tail) =~= decimal(a));
    assert(avatar_file_name(b).take(avatar_file_name(b).len() - tail) =~= decimal(b));
    decimal_is_injective(a, b);
}

// ---------------------------------------------------------------------------
// Places, platform by platform
// ---------------------------------------------------------------------------

/// The configuration directory hangs on one variable of each platform, but for
/// Linux, where `HOME` stands in for a missing one.
pub proof fn configuration_by_platform(env: Environment)
    ensures
        env.home ==> config_dir(Platform::Macos, env) == Some(
            LocationView { base: Base::Home, parts: seq!["Library/Application Support"@] },
        ),
        !env.home ==> config_dir(Platform::Macos, env) is None,
        env.appdata ==> config_dir(Platform::Windows, env) == Some(
            LocationView { base: Base::AppData, parts: seq![] },
        ),
        !env.appdata ==> config_dir(Platform::Windows, env) is None,
        env.xdg_config_home ==> config_dir(Platform::Linux, env) == Some(
            LocationView { base: Base::XdgConfigHome, parts: seq![] },
        ),
        !env.xdg_config_home && env.home ==> config_dir(Platform::Linux, env) == Some(
            LocationView { base: Base::Home, parts: seq![".config"@] },
        ),
        !env.xdg_config_home && !env.home ==> config_dir(Platform::Linux, env) is None,
{
    if env.home {
        assert(config_dir(Platform::Macos, env)->0.parts =~= seq!["Library/Application Support"@]);
        if !env.xdg_config_home {
            assert(config_dir(Platform::Linux, env)->0.parts =~= seq![".config"@]);
        }
    }
    if env.appdata {
        assert(config_dir(Platform::Windows, env)->0.parts =~= seq![]);
    }
    if env.xdg_config_home {
        assert(config_dir(Platform::Linux, env)->0.parts =~= seq![]);
    }
}

/// The settings are found, before the app is up, in the app's directory under
/// the configuration directory, and nowhere without one.
pub proof fn early_settings_are_in_the_configuration(platform: Platform, env: Environment)
    ensures
        match config_dir(platform, env) {
            Some(dir) => early_file(platform, env) == Some(
                LocationView {
                    base: dir.base,
                    parts: dir.parts.push("io.github.kristofferr.carrier"@).push("settings.json"@),
                },
            ),
            None => early_file(platform, env) is None,
        },
{
}

/// Downloads go to the folder of that name in the user's own directory.
pub proof fn downloads_by_platform(platform: Platform, env: Environment)
    ensures
        ({
            let base = if platform == Platform::Windows {
                Base::UserProfile
            } else {
                Base::Home
            };
            let known = if platform == Platform::Windows {
                env.userprofile
            } else {
                env.home
            };
            &&& known ==> downloads(platform, env) == Some(
                LocationView { base, parts: seq!["Downloads"@] },
            )
            &&& !known ==> downloads(platform, env) is None
        }),
{
    if downloads(platform, env) is Some {
        assert(downloads(platform, env)->0.parts =~= seq!["Downloads"@]);
    }
}

/// Whether `place` is one of those where the web view of macOS keeps what
/// belongs to `name`.
pub open spec fn macos_store(place: LocationView, name: Seq<char>) -> bool {
    place.base == Base::Home && place.parts.len() == 2 && {
        ||| place.parts[0] == "Library/WebKit"@ && place.parts[1] == name
        ||| place.parts[0] == "Library/Caches"@ && place.parts[1] == name
        ||| place.parts[0] == "Library/HTTPStorages"@ && place.parts[1] == name
            + ".binarycookies"@
        ||| place.parts[0] == "Library/Cookies"@ && place.parts[1] == name + ".binarycookies"@
    }
}

/// Whether the data of the web view is kept at `place`.
pub open spec fn data_place(
    platform: Platform,
    known: KnownDirs,
    identifier: Seq<char>,
    place: LocationView,
) -> bool {
    ||| known.cache && place.base == Base::AppCache && place.parts.len() == 0
    ||| platform == Platform::Macos && known.home && (macos_store(place, identifier)
        || macos_store(place, "carrier"@))
    ||| platform != Platform::Macos && known.local_data && place.base == Base::AppLocalData
        && place.parts.len() == 0
}

/// Where the data of the web view is cleared it is kept, and nothing else is
/// cleared.
pub proof fn only_data_places_are_cleared(
    platform: Platform,
    known: KnownDirs,
    identifier: Seq<char>,
    i: int,
)
    requires
        0 <= i < data_places(platform, known, identifier).len(),
    ensures
        data_place(platform, known, identifier, data_places(platform, known, identifier)[i]),
{
    let cache_len: int = if known.cache {
        1
    } else {
        0
    };
    let place = data_places(platform, known, identifier)[i];
    if platform == Platform::Macos && known.home && i >= cache_len {
        if i < cache_len + 4 {
            assert(place == macos_stores(at(Base::Home), identifier)[i - cache_len]);
        } else {
            assert(place == macos_stores(at(Base::Home), "carrier"@)[i - cache_len - 4]);
        }
    }
}

/// Every place where the data of the web view is kept is cleared.
pub proof fn every_data_place_is_cleared(
    platform: Platform,
    known: KnownDirs,
    identifier: Seq<char>,
    place: LocationView,
)
    requires
        data_place(platform, known, identifier, place),
    ensures
        data_places(platform, known, identifier).contains(place),
{
    let places = data_places(platform, known, identifier);
    let cache_len: int = if known.cache {
        1
    } else {
        0
    };
    if place.base == Base::AppCache {
        assert(place =~= at(Base::AppCache));
        assert(places[0] == place);
    } else if place.base == Base::AppLocalData {
        assert(place =~= at(Base::AppLocalData));
        assert(places[cache_len] == place);
    } else {
        let own = macos_stores(at(Base::Home), identifier);
        let earlier = macos_stores(at(Base::Home), "carrier"@);
        let (stores, from) = if macos_store(place, identifier) {
            (own, cache_len)
        } else {
            (earlier, cache_len + 4)
        };
        assert forall|k: int| 0 <= k < 4 implies #[trigger] stores[k] == places[from + k] by {}
        let k: int = if place.parts[0] == "Library/WebKit"@ && stores[0] =~= place {
            0
        } else if place.parts[0] == "Library/Caches"@ && stores[1] =~= place {
            1
        } else if place.parts[0] == "Library/HTTPStorages"@ && stores[2] =~= place {
            2
        } else {
            3
        };
        assert(stores[k] =~= place);
        assert(places[from + k] == place);
    }
}

/// Avatars are kept in a directory and in files that are named by number.
pub proof fn avatars_are_named_by_number(pid: nat, sequence: nat)
    ensures
        avatar_dir_name(pid) == "carrier-avatars-"@ + decimal(pid),
        avatar_file_name(sequence) == decimal(sequence) + ".png"@,
{
}

/// The web view of macOS keeps four things under any name, each where it always
/// is, under the directory that is given.
pub proof fn macos_stores_are_under_home(home: LocationView, name: Seq<char>)
    ensures
        ({
            let stores = macos_stores(home, name);
            let cookies = name + ".binarycookies"@;
            &&& stores.len() == 4
            &&& forall|i: int| 0 <= i < 4 ==> (#[trigger] stores[i]).base == home.base
            &&& stores[0].parts == home.parts.push("Library/WebKit"@).push(name)
            &&& stores[1].parts == home.parts.push("Library/Caches"@).push(name)
            &&& stores[2].parts == home.parts.push("Library/HTTPStorages"@).push(cookies)
            &&& stores[3].parts == home.parts.push("Library/Cookies"@).push(cookies)
        }),
{
}

} // verus!
