//! What windows are given: when they are built, and when the settings change.

use vstd::prelude::*;

use crate::link::text_view;
use crate::platform::{agent, app_title, title, user_agent, Platform, HOME_URL};
use crate::script::{init_script, settings_script, settings_update, start_script, Assets};
use crate::settings::{Settings, SettingsView};
use crate::theme::{
    background, dark, forced_theme, is_dark, splash_background, theme_for,
    two_words_force_a_theme, windows_are_dark_by_theme_or_system, Color, SystemMode, Theme,
};
use crate::window::{settings_title, shows_messenger, SETTINGS_LABEL};

verus! {

// ---------------------------------------------------------------------------
// New windows
// ---------------------------------------------------------------------------

/// What a new window that shows Messenger is built with.
#[derive(Debug)]
pub struct WindowSetup {
    /// The page it opens.
    pub url: &'static str,
    /// Its title.
    pub title: &'static str,
    /// The user agent it sends.
    pub user_agent: &'static str,
    /// The script that runs when its page starts.
    pub script: String,
    /// Whether it stays above all others.
    pub always_on_top: bool,
    /// Its theme; `None` where it follows the system.
    pub theme: Option<Theme>,
    /// Its background.
    pub background: Color,
}

/// The model of a [`WindowSetup`].
#[verifier::ext_equal]
pub struct WindowSetupView {
    /// The page it opens.
    pub url: Seq<char>,
    /// Its title.
    pub title: Seq<char>,
    /// The user agent it sends.
    pub user_agent: Seq<char>,
    /// The script that runs when its page starts.
    pub script: Seq<char>,
    /// Whether it stays above all others.
    pub always_on_top: bool,
    /// Its theme.
    pub theme: Option<Theme>,
    /// Its background.
    pub background: Color,
}

impl View for WindowSetup {
    type V = WindowSetupView;

    open spec fn view(&self) -> WindowSetupView {
        WindowSetupView {
            url: self.url@,
            title: self.title@,
            user_agent: self.user_agent@,
            script: self.script@,
            always_on_top: self.always_on_top,
            theme: self.theme,
            background: self.background,
        }
    }
}

/// What a new window that shows Messenger is built with under the settings `s`.
pub open spec fn setup_for(
    platform: Platform,
    debug: bool,
    s: SettingsView,
    system: SystemMode,
    settings_json: Seq<char>,
    assets: Assets,
) -> WindowSetupView {
    WindowSetupView {
        url: HOME_URL@,
        title: title(debug),
        user_agent: agent(platform)@,
        script: start_script(settings_json, assets),
        always_on_top: s.always_on_top,
        theme: forced_theme(s),
        background: background(s, system),
    }
}

/// What a new window that shows Messenger is built with. `settings_json` is the
/// settings as a JSON object.
pub fn build_app_window(
    platform: Platform,
    debug: bool,
    s: &Settings,
    system: SystemMode,
    settings_json: &str,
    assets: &Assets,
) -> (setup: WindowSetup)
    ensures
        setup@ == setup_for(platform, debug, s@, system, settings_json@, *assets),
{
    WindowSetup {
        url: HOME_URL,
        title: app_title(debug),
        user_agent: user_agent(platform),
        script: init_script(settings_json, assets),
        always_on_top: s.always_on_top,
        theme: theme_for(s),
        background: splash_background(s, system),
    }
}

/// What the settings dialog is built with.
#[derive(Debug)]
pub struct DialogSetup {
    /// Its title.
    pub title: String,
    /// Whether it stays above all others.
    pub always_on_top: bool,
    /// Its theme; `None` where it follows the system.
    pub theme: Option<Theme>,
}

/// What the settings dialog is built with. It stays above the others where the
/// windows that show Messenger do, lest it be trapped behind them.
pub fn show_settings_window(debug: bool, s: &Settings) -> (setup: DialogSetup)
    ensures
        setup.title@ == title(debug) + " Settings"@,
        setup.always_on_top == s@.always_on_top,
        setup.theme == forced_theme(s@),
{
    DialogSetup {
        title: settings_title(app_title(debug)),
        always_on_top: s.always_on_top,
        theme: theme_for(s),
    }
}

// ---------------------------------------------------------------------------
// New settings
// ---------------------------------------------------------------------------

/// What new settings mean for one window.
#[derive(Debug)]
pub struct WindowUpdate {
    /// Whether it stays above all others.
    pub always_on_top: bool,
    /// Its theme; `None` where it follows the system.
    pub theme: Option<Theme>,
    /// Whether it is dark.
    pub dark: bool,
    /// Its background.
    pub background: Color,
    /// The script that its page is handed, if any.
    pub script: Option<String>,
}

/// The model of a [`WindowUpdate`].
#[verifier::ext_equal]
pub struct WindowUpdateView {
    /// Whether it stays above all others.
    pub always_on_top: bool,
    /// Its theme.
    pub theme: Option<Theme>,
    /// Whether it is dark.
    pub dark: bool,
    /// Its background.
    pub background: Color,
    /// The script that its page is handed, if any.
    pub script: Option<Seq<char>>,
}

impl View for WindowUpdate {
    type V = WindowUpdateView;

    open spec fn view(&self) -> WindowUpdateView {
        WindowUpdateView {
            always_on_top: self.always_on_top,
            theme: self.theme,
            dark: self.dark,
            background: self.background,
            script: text_view(self.script),
        }
    }
}

/// What the settings `s` mean for the window with this label. `settings_json` is
/// `s` as a JSON object, where it could be written as one.
pub open spec fn update_for(
    s: SettingsView,
    system: SystemMode,
    label: Seq<char>,
    settings_json: Option<Seq<char>>,
) -> WindowUpdateView {
    WindowUpdateView {
        always_on_top: s.always_on_top,
        theme: forced_theme(s),
        dark: dark(s, system),
        background: background(s, system),
        script: match settings_json {
            Some(json) => if label != SETTINGS_LABEL@ {
                Some(settings_update(json))
            } else {
                None
            },
            None => None,
        },
    }
}

/// What new settings mean for the window with this label. Each window, the
/// settings dialog too, takes over the look and the place above the others, so
/// that the dialog is not trapped behind the rest. A page that shows Messenger
/// is handed the settings, so that it picks them up without a reload.
pub fn apply_settings(
    s: &Settings,
    system: SystemMode,
    label: &str,
    settings_json: &Option<String>,
) -> (update: WindowUpdate)
    ensures
        update@ == update_for(s@, system, label@, text_view(*settings_json)),
{
    let script: Option<String> = match settings_json {
        Some(json) => if shows_messenger(label) {
            Some(settings_script(json.as_str()))
        } else {
            None
        },
        None => None,
    };
    WindowUpdate {
        always_on_top: s.always_on_top,
        theme: theme_for(s),
        dark: is_dark(s, system),
        background: splash_background(s, system),
        script,
    }
}

/// A new window looks as the open ones do under the same settings.
pub proof fn new_windows_look_like_open_ones(
    platform: Platform,
    debug: bool,
    s: SettingsView,
    system: SystemMode,
    label: Seq<char>,
    settings_json: Seq<char>,
    assets: Assets,
)
    ensures
        ({
            let new = setup_for(platform, debug, s, system, settings_json, assets);
            let open = update_for(s, system, label, Some(settings_json));
            &&& new.always_on_top == open.always_on_top
            &&& new.theme == open.theme
            &&& new.background == open.background
        }),
{
}

/// All windows look alike: two of them differ at most in the script that their
/// pages are handed.
pub proof fn all_windows_look_alike(
    s: SettingsView,
    system: SystemMode,
    a: Seq<char>,
    b: Seq<char>,
    settings_json: Option<Seq<char>>,
)
    ensures
        update_for(s, system, a, settings_json) == (WindowUpdateView {
            script: update_for(s, system, a, settings_json).script,
            ..update_for(s, system, b, settings_json)
        }),
{
}

/// Every page that shows Messenger, in the main window as in any other, is
/// handed the new settings: they are assigned, kept for the next load, and
/// announced. The settings dialog is handed nothing.
pub proof fn every_messenger_page_is_handed_the_settings(
    s: SettingsView,
    system: SystemMode,
    label: Seq<char>,
    json: Seq<char>,
)
    ensures
        label != "settings"@ ==> update_for(s, system, label, Some(json)).script == Some(
            "window.__CARRIER_SETTINGS__ = "@ + json
                + "; try { localStorage.setItem('__carrier_settings', JSON.stringify(window.__CARRIER_SETTINGS__)); } catch (e) {} window.dispatchEvent(new Event('carrier:settings'));"@,
        ),
        label == "settings"@ ==> update_for(s, system, label, Some(json)).script is None,
        update_for(s, system, label, None).script is None,
{
}

/// Two windows that both show Messenger are treated alike in everything.
pub proof fn messenger_windows_are_treated_alike(
    s: SettingsView,
    system: SystemMode,
    a: Seq<char>,
    b: Seq<char>,
    settings_json: Option<Seq<char>>,
)
    requires
        a != "settings"@,
        b != "settings"@,
    ensures
        update_for(s, system, a, settings_json) == update_for(s, system, b, settings_json),
{
}

/// Any window, whatever its label, stays on top where the user wants that, has
/// the theme that the user forces, and is dark or light as that theme or else
/// the system says.
pub proof fn windows_follow_the_settings(
    s: SettingsView,
    system: SystemMode,
    label: Seq<char>,
    settings_json: Option<Seq<char>>,
)
    ensures
        ({
            let update = update_for(s, system, label, settings_json);
            &&& update.always_on_top == s.always_on_top
            &&& update.theme == Some(Theme::Dark) <==> s.theme == "dark"@
            &&& update.theme == Some(Theme::Light) <==> s.theme == "light"@
            &&& update.dark == (s.theme == "dark"@ || (s.theme != "light"@ && system
                == SystemMode::Dark))
            &&& update.background == (if update.dark {
                Color(24, 25, 26, 255)
            } else {
                Color(255, 255, 255, 255)
            })
        }),
{
    two_words_force_a_theme(s);
    windows_are_dark_by_theme_or_system(s, system);
}

/// A new window opens the messenger's page under the app's name and with the
/// settings baked into its script; the settings change nothing else of it but
/// its look and its place above others.
pub proof fn new_windows_open_the_messenger(
    platform: Platform,
    debug: bool,
    s: SettingsView,
    system: SystemMode,
    settings_json: Seq<char>,
    assets: Assets,
)
    ensures
        ({
            let setup = setup_for(platform, debug, s, system, settings_json, assets);
            &&& setup.url == "https://www.facebook.com/messages"@
            &&& setup.title == (if debug {
                "Carrier (debug)"@
            } else {
                "Carrier"@
            })
            &&& setup.user_agent == agent(platform)@
            &&& setup.script == start_script(settings_json, assets)
            &&& setup.always_on_top == s.always_on_top
        }),
{
}

} // verus!
