use carrier::settings::Settings;
use carrier::window::{
    activation_for, close_action, exit_allowed, rebuild_plan, settings_title, shows_messenger, starts_hidden,
    target_window, toggle_main, toggle_maximized, tray_action, window_label, Activation,
    CloseAction, SizeAction, TrayAction, WindowAction, WindowState, MAIN_LABEL, SETTINGS_LABEL,
};

fn window(label: &str, focused: bool) -> WindowState {
    WindowState { label: label.to_string(), focused }
}

#[test]
fn labels() {
    assert_eq!(MAIN_LABEL, "main");
    assert_eq!(SETTINGS_LABEL, "settings");
    assert_eq!(window_label(2), "win-2");
    assert_eq!(window_label(u64::MAX), "win-18446744073709551615");
    assert_ne!(window_label(12), window_label(21));
    assert!(shows_messenger("main"));
    assert!(shows_messenger("win-2"));
    assert!(!shows_messenger("settings"));
    assert_eq!(settings_title("Carrier"), "Carrier Settings");
}

#[test]
fn menu_actions_are_for_the_focused_window() {
    let windows =
        vec![window("main", false), window("settings", false), window("win-2", true)];
    assert_eq!(target_window(&windows), Some(2));
}

#[test]
fn menu_actions_fall_back_to_the_main_window() {
    let dialog = vec![window("settings", true), window("win-2", false), window("main", false)];
    assert_eq!(target_window(&dialog), Some(2));
    assert_eq!(target_window(&vec![window("settings", true)]), None);
    assert_eq!(target_window(&vec![window("win-2", false)]), None);
    assert_eq!(target_window(&Vec::new()), None);
}

#[test]
fn rebuilding_spares_the_dialog_and_restores_close_handling() {
    let labels: Vec<String> =
        ["win-3", "settings", "main", "win-2"].iter().map(|l| l.to_string()).collect();
    let plan = rebuild_plan(false, &labels).unwrap();
    let targets: Vec<(&str, bool)> =
        plan.iter().map(|t| (t.label.as_str(), t.handles_close)).collect();
    assert_eq!(targets, vec![("win-3", false), ("main", true), ("win-2", false)]);
    assert!(rebuild_plan(false, &Vec::new()).unwrap().is_empty());
}

#[test]
fn rebuilds_do_not_overlap() {
    assert!(rebuild_plan(true, &vec!["main".to_string()]).is_none());
    assert!(!exit_allowed(true));
    assert!(exit_allowed(false));
}

#[test]
fn tray_clicks_toggle_the_window() {
    assert_eq!(toggle_main(true, true), WindowAction::Hide);
    assert_eq!(toggle_main(true, false), WindowAction::Show);
    assert_eq!(toggle_main(false, true), WindowAction::Show);
    assert_eq!(toggle_main(false, false), WindowAction::Show);
}

#[test]
fn closing_hides_only_to_a_real_tray() {
    let hide = Settings::default();
    let quit = Settings { hide_on_close: false, ..Default::default() };
    assert_eq!(close_action(&hide, true), CloseAction::HideToTray);
    assert_eq!(close_action(&hide, false), CloseAction::Quit);
    assert_eq!(close_action(&quit, true), CloseAction::Quit);
    assert_eq!(close_action(&quit, false), CloseAction::Quit);
}

#[test]
fn starting_hidden_takes_a_tray() {
    let s = Settings { start_to_tray: true, ..Default::default() };
    assert!(starts_hidden(&s, true));
    assert!(!starts_hidden(&s, false));
    assert!(!starts_hidden(&Settings::default(), true));
}

#[test]
fn the_tray_follows_the_settings() {
    let with = Settings::default();
    let without = Settings { show_tray: false, ..Default::default() };
    assert_eq!(tray_action(&with, false), TrayAction::Create);
    assert_eq!(tray_action(&with, true), TrayAction::Keep);
    assert_eq!(tray_action(&without, true), TrayAction::ShowMainAndRemove);
    assert_eq!(tray_action(&without, false), TrayAction::Keep);
    let menu_bar = Settings { show_tray: false, menu_bar_only: true, ..Default::default() };
    assert_eq!(tray_action(&menu_bar, false), TrayAction::Create);
    assert_eq!(tray_action(&menu_bar, true), TrayAction::Keep);
}

#[test]
fn the_dock_icon_goes_only_when_there_is_a_tray() {
    let menu_bar = Settings { menu_bar_only: true, ..Default::default() };
    assert_eq!(activation_for(&menu_bar, true), Activation::Accessory);
    assert_eq!(activation_for(&menu_bar, false), Activation::RegularAndShowMain);
    assert_eq!(activation_for(&Settings::default(), true), Activation::Regular);
    assert_eq!(activation_for(&Settings::default(), false), Activation::Regular);
}

#[test]
fn the_size_of_a_window_is_toggled() {
    assert_eq!(toggle_maximized(false), SizeAction::Maximize);
    assert_eq!(toggle_maximized(true), SizeAction::Restore);
}
