use carrier::menu::{
    build_menu, handle_menu_event, page_script, MenuAction, MenuEntry, NativeItem, PageCommand,
};
use carrier::script::{click_script, init_script, settings_script, Assets};
use carrier::settings::{SettingsChange, ThemeChoice};

fn assets(css: &str) -> Assets {
    Assets {
        css: css.to_string(),
        script: "js();".to_string(),
        panel: "panel();".to_string(),
        bridge: "".to_string(),
    }
}

/// The literal that the start script hands the style sheet over in.
fn css_literal(css: &str) -> String {
    let script = init_script("{}", &assets(css));
    let start = script.find("  var css = ").unwrap() + "  var css = ".len();
    let end = script.find(";\n  function inject() {").unwrap();
    script[start..end].to_string()
}

#[test]
fn start_script_is_put_together_in_order() {
    let script = init_script("{\"theme\":\"dark\"}", &assets("a{}"));
    assert!(script.starts_with("(function () {\n  // Prefer settings cached"));
    assert!(script.contains("\n  var baked = {\"theme\":\"dark\"};\n  try {\n"));
    assert!(script.contains("\n  var css = \"a{}\";\n  function inject() {\n"));
    assert!(script.ends_with("\n})();\njs();\npanel();\n"));
    assert!(script.contains(
        "      var merged = Object.assign({}, baked, stored);\n      \
         if (merged.badge_mode !== 'messages' && merged.badge_mode !== 'conversations') {\n"
    ));
    let bridged = Assets { bridge: "bridge();".to_string(), ..assets("") };
    assert!(init_script("{}", &bridged).ends_with("\njs();\npanel();\nbridge();"));
}

#[test]
fn style_sheets_are_escaped() {
    assert_eq!(css_literal(""), "\"\"");
    assert_eq!(css_literal("a\"b\\c/d"), "\"a\\\"b\\\\c/d\"");
    assert_eq!(
        css_literal("\u{8}\t\n\u{b}\u{c}\r\u{0}\u{1f}\u{7f}"),
        "\"\\b\\t\\n\\u000b\\f\\r\\u0000\\u001f\u{7f}\""
    );
    assert_eq!(css_literal("\u{e9}\u{2028}\u{1f600}"), "\"\u{e9}\u{2028}\u{1f600}\"");
}

#[test]
fn escaped_style_sheets_are_read_back() {
    let mut all = String::new();
    for code in 0..0x300 {
        all.push(char::from_u32(code).unwrap());
    }
    for css in [all.as_str(), "\\\"", "\\u0041", "body::after { content: \"\\201C\"; }\n"] {
        let read: String = serde_json::from_str(&css_literal(css)).unwrap();
        assert_eq!(read, css);
    }
}

#[test]
fn running_pages_are_handed_settings() {
    assert_eq!(
        settings_script("{}"),
        "window.__CARRIER_SETTINGS__ = {}; \
         try { localStorage.setItem('__carrier_settings', JSON.stringify(window.__CARRIER_SETTINGS__)); } catch (e) {} \
         window.dispatchEvent(new Event('carrier:settings'));"
    );
}

#[test]
fn clicks_are_handed_to_the_page() {
    assert_eq!(
        click_script(0),
        "window.__carrierNotifyClick && window.__carrierNotifyClick(0);"
    );
    assert_eq!(
        click_script(u64::MAX),
        "window.__carrierNotifyClick && window.__carrierNotifyClick(18446744073709551615);"
    );
}

fn ids(debug: bool) -> Vec<&'static str> {
    let mut ids = Vec::new();
    for menu in build_menu("Carrier", debug) {
        for entry in menu.entries {
            match entry {
                MenuEntry::Native(_) => {}
                MenuEntry::Item(item) => ids.push(item.id),
                MenuEntry::Submenu(_, items) => ids.extend(items.iter().map(|item| item.id)),
            }
        }
    }
    ids
}

#[test]
fn the_menu_bar() {
    let menus = build_menu("Carrier (debug)", true);
    let titles: Vec<&str> = menus.iter().map(|menu| menu.title.as_str()).collect();
    assert_eq!(titles, vec!["Carrier (debug)", "File", "Edit", "View", "Window"]);
    let sizes: Vec<usize> = menus.iter().map(|menu| menu.entries.len()).collect();
    assert_eq!(sizes, vec![7, 3, 8, 13, 4]);
    assert_eq!(build_menu("Carrier", false)[3].entries.len(), 11);
    match &menus[0].entries[2] {
        MenuEntry::Item(item) => {
            assert_eq!(item.id, "preferences");
            assert_eq!(item.label, "Settings…");
            assert_eq!(item.accelerator, Some("CmdOrCtrl+,"));
        }
        other => panic!("expected an item, got {other:?}"),
    }
    match &menus[3].entries[7] {
        MenuEntry::Submenu(title, items) => {
            assert_eq!(*title, "Theme");
            let labels: Vec<&str> = items.iter().map(|item| item.label).collect();
            assert_eq!(labels, vec!["System", "Light", "Dark"]);
        }
        other => panic!("expected a submenu, got {other:?}"),
    }
    assert!(matches!(menus[4].entries[0], MenuEntry::Native(NativeItem::Minimize)));
}

#[test]
fn menu_items_are_told_apart_and_all_do_something() {
    for debug in [false, true] {
        let mut ids = ids(debug);
        for id in &ids {
            assert_ne!(handle_menu_event(id, debug), MenuAction::Ignore, "{id}");
        }
        let count = ids.len();
        ids.sort();
        ids.dedup();
        assert_eq!(ids.len(), count);
        assert_eq!(ids.contains(&"devtools"), debug);
    }
}

#[test]
fn menu_actions() {
    let action = |id: &str| handle_menu_event(id, false);
    assert_eq!(action("preferences"), MenuAction::OpenSettings);
    assert_eq!(action("reload"), MenuAction::Page(PageCommand::Reload));
    assert_eq!(action("zoom_in"), MenuAction::Page(PageCommand::ZoomIn));
    assert_eq!(action("zoom_out"), MenuAction::Page(PageCommand::ZoomOut));
    assert_eq!(action("zoom_reset"), MenuAction::Page(PageCommand::ZoomReset));
    assert_eq!(action("paste_match_style"), MenuAction::Page(PageCommand::PasteAndMatchStyle));
    assert_eq!(action("toggle_info"), MenuAction::Page(PageCommand::ToggleInfo));
    let theme = |choice| MenuAction::Change(SettingsChange::Theme(choice));
    assert_eq!(action("theme_system"), theme(ThemeChoice::System));
    assert_eq!(action("theme_light"), theme(ThemeChoice::Light));
    assert_eq!(action("theme_dark"), theme(ThemeChoice::Dark));
    assert_eq!(action("hide_names"), MenuAction::Change(SettingsChange::ToggleHideNames));
    assert_eq!(action("always_on_top"), MenuAction::Change(SettingsChange::ToggleAlwaysOnTop));
    assert_eq!(action("maximize"), MenuAction::ToggleMaximized);
    assert_eq!(action("new_window"), MenuAction::NewWindow);
    assert_eq!(action("clear_cache"), MenuAction::ClearCacheAndRestart);
    assert_eq!(action("devtools"), MenuAction::Ignore);
    assert_eq!(handle_menu_event("devtools", true), MenuAction::OpenDevtools);
    assert_eq!(action("quit"), MenuAction::Ignore);
    assert_eq!(action(""), MenuAction::Ignore);
}

#[test]
fn page_commands() {
    assert_eq!(page_script(PageCommand::Reload), "location.reload()");
    assert_eq!(
        page_script(PageCommand::ZoomIn),
        "window.__carrierZoomIn && window.__carrierZoomIn()"
    );
    assert_eq!(
        page_script(PageCommand::ZoomOut),
        "window.__carrierZoomOut && window.__carrierZoomOut()"
    );
    assert_eq!(
        page_script(PageCommand::ZoomReset),
        "window.__carrierZoomReset && window.__carrierZoomReset()"
    );
    assert_eq!(
        page_script(PageCommand::PasteAndMatchStyle),
        "navigator.clipboard && navigator.clipboard.readText().then(function (t) { \
         document.execCommand('insertText', false, t); })"
    );
    assert_eq!(
        page_script(PageCommand::ToggleInfo),
        "window.__carrierToggleInfo && window.__carrierToggleInfo()"
    );
}
