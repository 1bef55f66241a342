//! Light and dark: what the windows look like.

use vstd::prelude::*;

use crate::settings::{Settings, SettingsView};
use crate::text::{chars_of, has_part, occurs, same_text};

verus! {

/// The theme of a window.
#[derive(Clone, Copy, PartialEq, Eq, Structural, Debug)]
pub enum Theme {
    /// Light.
    Light,
    /// Dark.
    Dark,
}

/// What the system prefers.
#[derive(Clone, Copy, PartialEq, Eq, Structural, Debug)]
pub enum SystemMode {
    /// Dark windows.
    Dark,
    /// Light windows.
    Light,
    /// No preference, or it is not known.
    Unspecified,
}

/// A colour: red, green, blue and opacity.
#[derive(Clone, Copy, PartialEq, Eq, Structural, Debug)]
pub struct Color(pub u8, pub u8, pub u8, pub u8);

/// The theme that `s` forces; `None` where it follows the system.
pub open spec fn forced_theme(s: SettingsView) -> Option<Theme> {
    if s.theme == "dark"@ {
        Some(Theme::Dark)
    } else if s.theme == "light"@ {
        Some(Theme::Light)
    } else {
        None
    }
}

/// Whether windows are dark under `s` on a system that prefers `system`.
pub open spec fn dark(s: SettingsView, system: SystemMode) -> bool {
    match forced_theme(s) {
        Some(theme) => theme == Theme::Dark,
        None => system == SystemMode::Dark,
    }
}

/// Facebook's dark background.
pub open spec fn dark_background() -> Color {
    Color(24, 25, 26, 255)
}

/// White.
pub open spec fn light_background() -> Color {
    Color(255, 255, 255, 255)
}

/// The background of a window under `s` on a system that prefers `system`.
pub open spec fn background(s: SettingsView, system: SystemMode) -> Color {
    if dark(s, system) {
        dark_background()
    } else {
        light_background()
    }
}

/// The theme to apply to a window: an explicit light or dark, or `None` to
/// follow the system.
pub fn theme_for(s: &Settings) -> (theme: Option<Theme>)
    ensures
        theme == forced_theme(s@),
{
    if same_text(s.theme.as_str(), "dark") {
        Some(Theme::Dark)
    } else if same_text(s.theme.as_str(), "light") {
        Some(Theme::Light)
    } else {
        None
    }
}

/// True when windows should render dark: forced dark, or following a dark
/// system. What the system prefers only matters where [`theme_for`] is `None`.
pub fn is_dark(s: &Settings, system: SystemMode) -> (yes: bool)
    ensures
        yes == dark(s@, system),
{
    match theme_for(s) {
        Some(theme) => theme == Theme::Dark,
        None => system == SystemMode::Dark,
    }
}

/// A window background that fits the theme, so that there is no white flash
/// before the page paints.
pub fn splash_background(s: &Settings, system: SystemMode) -> (color: Color)
    ensures
        color == background(s@, system),
{
    if is_dark(s, system) {
        Color(24, 25, 26, 255)
    } else {
        Color(255, 255, 255, 255)
    }
}

/// Whether the appearance that macOS gives this name is a dark one: the names of
/// all dark appearances, those with high contrast too, have "Dark" in them.
pub fn is_dark_appearance(name: &str) -> (yes: bool)
    ensures
        yes == occurs(name@, "Dark"@),
{
    has_part(&chars_of(name), &chars_of("Dark"))
}

/// Whether a change in how the system renders calls for a rebuild of the
/// windows.
pub open spec fn flip_matters(s: SettingsView, was_dark: bool, now_dark: bool) -> bool {
    s.theme == "system"@ && was_dark != now_dark
}

/// Whether an appearance notification calls for a rebuild of the windows: only
/// while the theme follows the system, and only when light and dark really
/// flipped.
pub fn appearance_flipped(s: &Settings, was_dark: bool, now_dark: bool) -> (rebuild: bool)
    ensures
        rebuild == flip_matters(s@, was_dark, now_dark),
{
    was_dark != now_dark && same_text(s.theme.as_str(), "system")
}

/// A forced theme holds whatever the system prefers.
pub proof fn forced_theme_ignores_the_system(s: SettingsView, a: SystemMode, b: SystemMode)
    requires
        forced_theme(s) is Some,
    ensures
        dark(s, a) == dark(s, b),
        dark(s, a) == (forced_theme(s) == Some(Theme::Dark)),
{
}

/// While a theme is forced, no change of the system rebuilds a window.
pub proof fn forced_theme_is_never_rebuilt(s: SettingsView, was_dark: bool, now_dark: bool)
    requires
        forced_theme(s) is Some,
    ensures
        !flip_matters(s, was_dark, now_dark),
{
    reveal_strlit("dark");
    reveal_strlit("light");
    reveal_strlit("system");
    assert("dark"@[0] != "system"@[0]);
    assert("light"@[0] != "system"@[0]);
}

// ---------------------------------------------------------------------------
// Theme by theme
// ---------------------------------------------------------------------------

/// Only the two words "dark" and "light" force a theme, and each forces its own.
pub proof fn two_words_force_a_theme(s: SettingsView)
    ensures
        forced_theme(s) == Some(Theme::Dark) <==> s.theme == "dark"@,
        forced_theme(s) == Some(Theme::Light) <==> s.theme == "light"@,
        forced_theme(s) is None <==> s.theme != "dark"@ && s.theme != "light"@,
{
    reveal_strlit("dark");
    reveal_strlit("light");
    assert("dark"@.len() != "light"@.len());
}

/// Windows are dark under the theme "dark", light under "light", and as the
/// system is under any other; their background is Facebook's dark or white
/// accordingly.
pub proof fn windows_are_dark_by_theme_or_system(s: SettingsView, system: SystemMode)
    ensures
        s.theme == "dark"@ ==> dark(s, system),
        s.theme == "light"@ ==> !dark(s, system),
        s.theme != "dark"@ && s.theme != "light"@ ==> dark(s, system) == (system
            == SystemMode::Dark),
        background(s, system) == (if dark(s, system) {
            Color(24, 25, 26, 255)
        } else {
            Color(255, 255, 255, 255)
        }),
{
    two_words_force_a_theme(s);
}

/// The look of the windows depends on the theme and the system alone.
pub proof fn look_depends_on_theme_alone(a: SettingsView, b: SettingsView, system: SystemMode)
    requires
        a.theme == b.theme,
    ensures
        forced_theme(a) == forced_theme(b),
        dark(a, system) == dark(b, system),
        background(a, system) == background(b, system),
{
}

/// While the theme is "system", a rebuild follows every flip between light and
/// dark and nothing else; under any other theme none does.
pub proof fn rebuilds_follow_flips_under_system(s: SettingsView, was_dark: bool, now_dark: bool)
    ensures
        s.theme == "system"@ ==> flip_matters(s, was_dark, now_dark) == (was_dark != now_dark),
        s.theme != "system"@ ==> !flip_matters(s, was_dark, now_dark),
{
}

} // verus!
