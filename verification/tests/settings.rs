use carrier::apply::{apply_settings, build_app_window, show_settings_window};
use carrier::platform::{app_title, user_agent, Platform, APP_IDENTIFIER, HOME_URL};
use carrier::script::{init_script, Assets};
use carrier::settings::{
    autostart_error, autostart_request, finish_store, is_single_instance, mutate_settings,
    recreate_on_theme_change, store_settings, wants_tray, Settings, SettingsChange, ThemeChoice,
};
use carrier::theme::{
    appearance_flipped, is_dark, is_dark_appearance, splash_background, theme_for, Color,
    SystemMode, Theme,
};

const MODES: [SystemMode; 3] = [SystemMode::Dark, SystemMode::Light, SystemMode::Unspecified];
const PLATFORMS: [Platform; 3] = [Platform::Macos, Platform::Windows, Platform::Linux];

fn with_theme(theme: &str) -> Settings {
    Settings {
        theme: theme.into(),
        ..Default::default()
    }
}

fn same(a: &Settings, b: &Settings) -> bool {
    format!("{a:?}") == format!("{b:?}")
}

#[test]
fn theme_for_dark_returns_dark() {
    assert_eq!(theme_for(&with_theme("dark")), Some(Theme::Dark));
}

#[test]
fn theme_for_light_returns_light() {
    assert_eq!(theme_for(&with_theme("light")), Some(Theme::Light));
}

#[test]
fn theme_for_system_returns_none() {
    assert_eq!(theme_for(&with_theme("system")), None);
}

#[test]
fn theme_for_unknown_string_returns_none() {
    assert_eq!(theme_for(&with_theme("auto")), None);
    assert_eq!(theme_for(&with_theme("")), None);
}

#[test]
fn is_dark_forced_dark() {
    for mode in MODES {
        assert!(is_dark(&with_theme("dark"), mode));
    }
}

#[test]
fn is_dark_forced_light() {
    for mode in MODES {
        assert!(!is_dark(&with_theme("light"), mode));
    }
}

#[test]
fn splash_background_dark_is_facebook_dark_color() {
    for mode in MODES {
        // Facebook's dark background colour, as hard-coded in the function.
        assert_eq!(
            splash_background(&with_theme("dark"), mode),
            Color(24, 25, 26, 255)
        );
    }
}

#[test]
fn splash_background_light_is_white() {
    for mode in MODES {
        assert_eq!(
            splash_background(&with_theme("light"), mode),
            Color(255, 255, 255, 255)
        );
    }
}

#[test]
fn settings_default_new_fields_have_correct_values() {
    let s = Settings::default();
    assert!(s.unread_badge, "unread_badge should default to true");
    assert_eq!(s.theme, "system", "theme should default to 'system'");
    assert!(!s.menu_bar_only, "menu_bar_only should default to false");
}

#[test]
fn wants_tray_true_when_show_tray_set() {
    // show_tray defaults to true.
    assert!(wants_tray(&Settings::default()));
}

#[test]
fn wants_tray_menu_bar_only_forces_it_even_without_show_tray() {
    let s = Settings {
        show_tray: false,
        menu_bar_only: true,
        ..Default::default()
    };
    assert!(wants_tray(&s), "menu_bar_only must force the tray on");
}

#[test]
fn wants_tray_false_when_both_off() {
    let s = Settings {
        show_tray: false,
        menu_bar_only: false,
        ..Default::default()
    };
    assert!(!wants_tray(&s), "no tray when both are off");
}

#[test]
fn every_default() {
    let s = Settings::default();
    assert!(!s.always_on_top);
    assert!(s.show_tray);
    assert!(!s.start_to_tray);
    assert!(!s.autostart);
    assert!(s.hide_on_close);
    assert!(!s.multi_instance);
    assert!(s.spellcheck);
    assert!(s.unread_badge);
    assert_eq!(s.badge_mode, "messages");
    assert_eq!(s.theme, "system");
    assert!(!s.menu_bar_only);
    assert!(!s.mute_notifications);
    assert!(!s.hide_notification_preview);
    assert!(!s.hide_names_avatars);
    assert!(same(&s, &s.clone()));
}

#[test]
fn following_the_system() {
    let s = with_theme("system");
    assert!(is_dark(&s, SystemMode::Dark));
    assert!(!is_dark(&s, SystemMode::Light));
    assert!(!is_dark(&s, SystemMode::Unspecified));
    assert_eq!(splash_background(&s, SystemMode::Dark), Color(24, 25, 26, 255));
    assert_eq!(splash_background(&s, SystemMode::Light), Color(255, 255, 255, 255));
}

#[test]
fn only_a_real_flip_under_the_system_theme_rebuilds() {
    assert!(appearance_flipped(&with_theme("system"), false, true));
    assert!(appearance_flipped(&with_theme("system"), true, false));
    assert!(!appearance_flipped(&with_theme("system"), true, true));
    assert!(!appearance_flipped(&with_theme("dark"), false, true));
    assert!(!appearance_flipped(&with_theme("auto"), false, true));
}

#[test]
fn dark_appearances_by_name() {
    assert!(is_dark_appearance("NSAppearanceNameDarkAqua"));
    assert!(is_dark_appearance("NSAppearanceNameAccessibilityHighContrastDarkAqua"));
    assert!(is_dark_appearance("Dark"));
    assert!(!is_dark_appearance("NSAppearanceNameAqua"));
    assert!(!is_dark_appearance("dark"));
    assert!(!is_dark_appearance("Dar"));
    assert!(!is_dark_appearance(""));
}

#[test]
fn theme_changes_rebuild_on_macos_only() {
    assert!(recreate_on_theme_change(Platform::Macos, "system", "dark"));
    assert!(!recreate_on_theme_change(Platform::Macos, "dark", "dark"));
    assert!(!recreate_on_theme_change(Platform::Windows, "system", "dark"));
    assert!(!recreate_on_theme_change(Platform::Linux, "system", "dark"));
}

#[test]
fn autostart_is_asked_for_only_when_it_changes() {
    let off = Settings::default();
    let on = Settings { autostart: true, ..Default::default() };
    assert_eq!(autostart_request(&off, &off), None);
    assert_eq!(autostart_request(&off, &on), Some(true));
    assert_eq!(autostart_request(&on, &off), Some(false));
    assert_eq!(
        autostart_error("denied"),
        "Couldn't update Start on System Startup: denied"
    );
}

#[test]
fn a_store_that_all_accept() {
    let prev = Settings::default();
    let new = Settings { autostart: true, theme: "dark".into(), ..Default::default() };
    for platform in PLATFORMS {
        let pending = store_settings(&prev, &new, Ok(()));
        assert!(same(&pending.effective, &new));
        assert_eq!(pending.autostart_error, None);
        let stored = finish_store(platform, &prev, pending, Ok(()));
        assert!(same(&stored.in_force, &new));
        assert!(stored.apply);
        assert_eq!(stored.rebuild, platform == Platform::Macos);
        assert!(same(&stored.reply.unwrap(), &new));
    }
}

#[test]
fn a_store_with_autostart_rejected() {
    let prev = Settings::default();
    let new = Settings { autostart: true, spellcheck: false, ..Default::default() };
    let pending = store_settings(&prev, &new, Err("no".to_string()));
    assert!(!pending.effective.autostart);
    assert!(!pending.effective.spellcheck);
    let stored = finish_store(Platform::Linux, &prev, pending, Ok(()));
    assert!(!stored.in_force.autostart);
    assert!(!stored.in_force.spellcheck);
    assert!(stored.apply);
    assert!(!stored.rebuild);
    assert_eq!(stored.reply.unwrap_err(), "no");
}

#[test]
fn an_answer_about_autostart_that_was_not_asked_for_is_ignored() {
    let prev = Settings::default();
    let new = Settings { always_on_top: true, ..Default::default() };
    let pending = store_settings(&prev, &new, Err("no".to_string()));
    assert_eq!(pending.autostart_error, None);
    assert!(same(&pending.effective, &new));
}

#[test]
fn a_store_that_cannot_be_written() {
    let prev = Settings::default();
    let new = Settings { theme: "dark".into(), ..Default::default() };
    let pending = store_settings(&prev, &new, Ok(()));
    let stored = finish_store(Platform::Macos, &prev, pending, Err("disk full".to_string()));
    assert!(same(&stored.in_force, &prev));
    assert!(!stored.apply);
    assert!(!stored.rebuild);
    assert_eq!(stored.reply.unwrap_err(), "disk full");
}

#[test]
fn changes_from_the_menu() {
    let mut s = Settings::default();
    assert!(mutate_settings(
        Platform::Macos,
        &mut s,
        SettingsChange::Theme(ThemeChoice::Dark)
    ));
    assert_eq!(s.theme, "dark");
    assert!(!mutate_settings(
        Platform::Macos,
        &mut s,
        SettingsChange::Theme(ThemeChoice::Dark)
    ));
    assert!(!mutate_settings(
        Platform::Linux,
        &mut s,
        SettingsChange::Theme(ThemeChoice::Light)
    ));
    assert_eq!(s.theme, "light");
    mutate_settings(Platform::Linux, &mut s, SettingsChange::Theme(ThemeChoice::System));
    assert!(same(&s, &Settings::default()));

    assert!(!mutate_settings(Platform::Macos, &mut s, SettingsChange::ToggleHideNames));
    assert!(s.hide_names_avatars);
    mutate_settings(Platform::Macos, &mut s, SettingsChange::ToggleHideNames);
    assert!(!mutate_settings(Platform::Macos, &mut s, SettingsChange::ToggleAlwaysOnTop));
    assert!(s.always_on_top);
    mutate_settings(Platform::Macos, &mut s, SettingsChange::ToggleAlwaysOnTop);
    assert!(same(&s, &Settings::default()));
}

#[test]
fn settings_reach_every_window() {
    let s = Settings { always_on_top: true, ..with_theme("dark") };
    let json = Some("{\"a\":1}".to_string());
    let page = apply_settings(&s, SystemMode::Light, "win-2", &json);
    assert!(page.always_on_top);
    assert_eq!(page.theme, Some(Theme::Dark));
    assert!(page.dark);
    assert_eq!(page.background, Color(24, 25, 26, 255));
    assert_eq!(
        page.script.as_deref(),
        Some(
            "window.__CARRIER_SETTINGS__ = {\"a\":1}; \
             try { localStorage.setItem('__carrier_settings', JSON.stringify(window.__CARRIER_SETTINGS__)); } catch (e) {} \
             window.dispatchEvent(new Event('carrier:settings'));"
        )
    );
    let dialog = apply_settings(&s, SystemMode::Light, "settings", &json);
    assert!(dialog.always_on_top && dialog.dark);
    assert_eq!(dialog.script, None);
    let unwritten = apply_settings(&with_theme("system"), SystemMode::Light, "main", &None);
    assert_eq!(unwritten.theme, None);
    assert!(!unwritten.dark && !unwritten.always_on_top);
    assert_eq!(unwritten.background, Color(255, 255, 255, 255));
    assert_eq!(unwritten.script, None);
}

#[test]
fn platforms_and_titles() {
    assert_eq!(
        user_agent(Platform::Macos),
        "Mozilla/5.0 (Macintosh; Intel Mac OS X 10_15_7) AppleWebKit/605.1.15 \
         (KHTML, like Gecko) Version/17.4 Safari/605.1.15"
    );
    assert_eq!(
        user_agent(Platform::Windows),
        "Mozilla/5.0 (Windows NT 10.0; Win64; x64) AppleWebKit/537.36 \
         (KHTML, like Gecko) Chrome/124.0.0.0 Safari/537.36"
    );
    assert_eq!(
        user_agent(Platform::Linux),
        "Mozilla/5.0 (X11; Linux x86_64) AppleWebKit/537.36 \
         (KHTML, like Gecko) Chrome/124.0.0.0 Safari/537.36"
    );
    assert_eq!(app_title(false), "Carrier");
    assert_eq!(app_title(true), "Carrier (debug)");
    assert_eq!(HOME_URL, "https://www.facebook.com/messages");
    assert_eq!(APP_IDENTIFIER, "io.github.kristofferr.carrier");
}

#[test]
fn new_windows_are_set_up_like_open_ones() {
    let s = Settings { always_on_top: true, ..with_theme("dark") };
    let assets = Assets {
        css: "a{}".to_string(),
        script: "js();".to_string(),
        panel: "panel();".to_string(),
        bridge: String::new(),
    };
    let setup =
        build_app_window(Platform::Linux, false, &s, SystemMode::Unspecified, "{}", &assets);
    assert_eq!(setup.url, "https://www.facebook.com/messages");
    assert_eq!(setup.title, "Carrier");
    assert_eq!(setup.user_agent, user_agent(Platform::Linux));
    assert_eq!(setup.script, init_script("{}", &assets));
    let open = apply_settings(&s, SystemMode::Unspecified, "main", &None);
    assert_eq!(setup.always_on_top, open.always_on_top);
    assert_eq!(setup.theme, open.theme);
    assert_eq!(setup.background, open.background);
    assert_eq!(setup.background, Color(24, 25, 26, 255));

    let dialog = show_settings_window(true, &s);
    assert_eq!(dialog.title, "Carrier (debug) Settings");
    assert!(dialog.always_on_top);
    assert_eq!(dialog.theme, Some(Theme::Dark));
}

#[test]
fn one_instance_unless_more_are_allowed() {
    assert!(is_single_instance(&Settings::default()));
    assert!(!is_single_instance(&Settings { multi_instance: true, ..Default::default() }));
}
