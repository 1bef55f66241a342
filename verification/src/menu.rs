//! The native menu: how it is laid out, and what each of its items does.

use vstd::prelude::*;

use crate::settings::{SettingsChange, ThemeChoice};
use crate::text::same_text;

verus! {

// ---------------------------------------------------------------------------
// Layout
// ---------------------------------------------------------------------------

/// A menu item that every desktop provides.
#[derive(Clone, Copy, PartialEq, Eq, Structural, Debug)]
pub enum NativeItem {
    /// A line between items.
    Separator,
    /// About the app.
    About,
    /// Hide the app.
    Hide,
    /// Quit the app.
    Quit,
    /// Close the window.
    CloseWindow,
    /// Minimize the window.
    Minimize,
    /// Undo.
    Undo,
    /// Redo.
    Redo,
    /// Cut.
    Cut,
    /// Copy.
    Copy,
    /// Paste.
    Paste,
    /// Select all.
    SelectAll,
}

/// A menu item of the app's own.
#[derive(Clone, Copy, Debug)]
pub struct MenuItem {
    /// What it is told apart by.
    pub id: &'static str,
    /// What it is called.
    pub label: &'static str,
    /// The keys that stand for it, if any.
    pub accelerator: Option<&'static str>,
}

/// One line of a menu.
#[derive(Debug)]
pub enum MenuEntry {
    /// An item that every desktop provides.
    Native(NativeItem),
    /// An item of the app's own.
    Item(MenuItem),
    /// A menu of its own, with a title.
    Submenu(&'static str, Vec<MenuItem>),
}

/// A menu of the menu bar.
#[derive(Debug)]
pub struct Menu {
    /// Its title.
    pub title: String,
    /// Its lines.
    pub entries: Vec<MenuEntry>,
}

/// The model of a [`MenuItem`].
#[verifier::ext_equal]
pub struct ItemView {
    /// What it is told apart by.
    pub id: Seq<char>,
    /// What it is called.
    pub label: Seq<char>,
    /// The keys that stand for it, if any.
    pub accelerator: Option<Seq<char>>,
}

/// The model of a [`MenuEntry`].
#[verifier::ext_equal]
pub enum EntryView {
    /// An item that every desktop provides.
    Native(NativeItem),
    /// An item of the app's own.
    Item(ItemView),
    /// A menu of its own.
    Submenu(Seq<char>, Seq<ItemView>),
}

/// The model of a [`Menu`].
#[verifier::ext_equal]
pub struct MenuView {
    /// Its title.
    pub title: Seq<char>,
    /// Its lines.
    pub entries: Seq<EntryView>,
}

impl View for MenuItem {
    type V = ItemView;

    open spec fn view(&self) -> ItemView {
        ItemView {
            id: self.id@,
            label: self.label@,
            accelerator: match self.accelerator {
                Some(keys) => Some(keys@),
                None => None,
            },
        }
    }
}

impl View for MenuEntry {
    type V = EntryView;

    open spec fn view(&self) -> EntryView {
        match self {
            MenuEntry::Native(item) => EntryView::Native(*item),
            MenuEntry::Item(item) => EntryView::Item(item@),
            MenuEntry::Submenu(title, items) => EntryView::Submenu(
                title@,
                Seq::new(items@.len(), |i: int| items@[i]@),
            ),
        }
    }
}

impl View for Menu {
    type V = MenuView;

    open spec fn view(&self) -> MenuView {
        MenuView {
            title: self.title@,
            entries: Seq::new(self.entries@.len(), |i: int| self.entries@[i]@),
        }
    }
}

/// The models of a row of menus.
pub open spec fn menus_view(menus: Seq<Menu>) -> Seq<MenuView> {
    Seq::new(menus.len(), |i: int| menus[i]@)
}

/// An item with keys that stand for it.
pub open spec fn keyed(id: &'static str, label: &'static str, keys: &'static str) -> EntryView {
    EntryView::Item(ItemView { id: id@, label: label@, accelerator: Some(keys@) })
}

/// An item without keys.
pub open spec fn plain(id: &'static str, label: &'static str) -> EntryView {
    EntryView::Item(ItemView { id: id@, label: label@, accelerator: None })
}

/// The choices of a theme.
pub open spec fn theme_items() -> Seq<ItemView> {
    seq![
        ItemView { id: "theme_system"@, label: "System"@, accelerator: None },
        ItemView { id: "theme_light"@, label: "Light"@, accelerator: None },
        ItemView { id: "theme_dark"@, label: "Dark"@, accelerator: None },
    ]
}

/// The menu that carries the name of the app.
pub open spec fn app_entries() -> Seq<EntryView> {
    seq![
        EntryView::Native(NativeItem::About),
        EntryView::Native(NativeItem::Separator),
        keyed("preferences", "Settings\u{2026}", "CmdOrCtrl+,"),
        EntryView::Native(NativeItem::Separator),
        EntryView::Native(NativeItem::Hide),
        EntryView::Native(NativeItem::Separator),
        EntryView::Native(NativeItem::Quit),
    ]
}

/// The menu for windows as documents.
pub open spec fn file_entries() -> Seq<EntryView> {
    seq![
        keyed("new_window", "New Window", "CmdOrCtrl+N"),
        EntryView::Native(NativeItem::Separator),
        EntryView::Native(NativeItem::CloseWindow),
    ]
}

/// The menu for editing.
pub open spec fn edit_entries() -> Seq<EntryView> {
    seq![
        EntryView::Native(NativeItem::Undo),
        EntryView::Native(NativeItem::Redo),
        EntryView::Native(NativeItem::Separator),
        EntryView::Native(NativeItem::Cut),
        EntryView::Native(NativeItem::Copy),
        EntryView::Native(NativeItem::Paste),
        keyed("paste_match_style", "Paste and Match Style", "CmdOrCtrl+Shift+Alt+V"),
        EntryView::Native(NativeItem::SelectAll),
    ]
}

/// The menu for what the page looks like, in a release.
pub open spec fn view_entries() -> Seq<EntryView> {
    seq![
        keyed("reload", "Reload", "CmdOrCtrl+R"),
        keyed("clear_cache", "Clear Cache && Restart", "CmdOrCtrl+Shift+Backspace"),
        EntryView::Native(NativeItem::Separator),
        keyed("zoom_reset", "Actual Size", "CmdOrCtrl+0"),
        keyed("zoom_in", "Zoom In", "CmdOrCtrl+="),
        keyed("zoom_out", "Zoom Out", "CmdOrCtrl+-"),
        EntryView::Native(NativeItem::Separator),
        EntryView::Submenu("Theme"@, theme_items()),
        keyed("toggle_info", "Toggle Conversation Information", "CmdOrCtrl+Shift+I"),
        keyed("hide_names", "Hide Names && Avatars", "CmdOrCtrl+Shift+N"),
        plain("always_on_top", "Toggle Always on Top"),
    ]
}

/// What a debug build adds to the view menu.
pub open spec fn debug_entries() -> Seq<EntryView> {
    seq![
        EntryView::Native(NativeItem::Separator),
        keyed("devtools", "Toggle Developer Tools", "CmdOrCtrl+Alt+I"),
    ]
}

/// The menu for the window.
pub open spec fn window_entries() -> Seq<EntryView> {
    seq![
        EntryView::Native(NativeItem::Minimize),
        plain("maximize", "Zoom"),
        EntryView::Native(NativeItem::Separator),
        EntryView::Native(NativeItem::CloseWindow),
    ]
}

/// The menu bar, with the app called `app_title`.
pub open spec fn menu_bar(app_title: Seq<char>, debug: bool) -> Seq<MenuView> {
    seq![
        MenuView { title: app_title, entries: app_entries() },
        MenuView { title: "File"@, entries: file_entries() },
        MenuView { title: "Edit"@, entries: edit_entries() },
        MenuView {
            title: "View"@,
            entries: if debug {
                view_entries() + debug_entries()
            } else {
                view_entries()
            },
        },
        MenuView { title: "Window"@, entries: window_entries() },
    ]
}

fn item(id: &'static str, label: &'static str, keys: &'static str) -> (entry: MenuEntry)
    ensures
        entry@ == keyed(id, label, keys),
{
    MenuEntry::Item(MenuItem { id, label, accelerator: Some(keys) })
}

fn bare_item(id: &'static str, label: &'static str) -> (entry: MenuEntry)
    ensures
        entry@ == plain(id, label),
{
    MenuEntry::Item(MenuItem { id, label, accelerator: None })
}

fn native(item: NativeItem) -> (entry: MenuEntry)
    ensures
        entry@ == EntryView::Native(item),
{
    MenuEntry::Native(item)
}

fn theme_submenu() -> (entry: MenuEntry)
    ensures
        entry@ == EntryView::Submenu("Theme"@, theme_items()),
{
    let items: Vec<MenuItem> = vec![
        MenuItem { id: "theme_system", label: "System", accelerator: None },
        MenuItem { id: "theme_light", label: "Light", accelerator: None },
        MenuItem { id: "theme_dark", label: "Dark", accelerator: None },
    ];
    assert(Seq::new(items@.len(), |i: int| items@[i]@) =~= theme_items());
    MenuEntry::Submenu("Theme", items)
}

fn app_menu(app_title: &str) -> (menu: Menu)
    ensures
        menu@ == (MenuView { title: app_title@, entries: app_entries() }),
{
    let entries: Vec<MenuEntry> = vec![
        native(NativeItem::About),
        native(NativeItem::Separator),
        item("preferences", "Settings\u{2026}", "CmdOrCtrl+,"),
        native(NativeItem::Separator),
        native(NativeItem::Hide),
        native(NativeItem::Separator),
        native(NativeItem::Quit),
    ];
    let menu = Menu { title: app_title.to_string(), entries };
    assert(menu@.entries =~= app_entries());
    menu
}

fn file_menu() -> (menu: Menu)
    ensures
        menu@ == (MenuView { title: "File"@, entries: file_entries() }),
{
    let entries: Vec<MenuEntry> = vec![
        item("new_window", "New Window", "CmdOrCtrl+N"),
        native(NativeItem::Separator),
        native(NativeItem::CloseWindow),
    ];
    let menu = Menu { title: "File".to_string(), entries };
    assert(menu@.entries =~= file_entries());
    menu
}

fn edit_menu() -> (menu: Menu)
    ensures
        menu@ == (MenuView { title: "Edit"@, entries: edit_entries() }),
{
    let entries: Vec<MenuEntry> = vec![
        native(NativeItem::Undo),
        native(NativeItem::Redo),
        native(NativeItem::Separator),
        native(NativeItem::Cut),
        native(NativeItem::Copy),
        native(NativeItem::Paste),
        item("paste_match_style", "Paste and Match Style", "CmdOrCtrl+Shift+Alt+V"),
        native(NativeItem::SelectAll),
    ];
    let menu = Menu { title: "Edit".to_string(), entries };
    assert(menu@.entries =~= edit_entries());
    menu
}

fn view_menu(debug: bool) -> (menu: Menu)
    ensures
        menu@ == (MenuView {
            title: "View"@,
            entries: if debug {
                view_entries() + debug_entries()
            } else {
                view_entries()
            },
        }),
{
    let mut entries: Vec<MenuEntry> = vec![
        item("reload", "Reload", "CmdOrCtrl+R"),
        item("clear_cache", "Clear Cache && Restart", "CmdOrCtrl+Shift+Backspace"),
        native(NativeItem::Separator),
        item("zoom_reset", "Actual Size", "CmdOrCtrl+0"),
        item("zoom_in", "Zoom In", "CmdOrCtrl+="),
        item("zoom_out", "Zoom Out", "CmdOrCtrl+-"),
        native(NativeItem::Separator),
        theme_submenu(),
        item("toggle_info", "Toggle Conversation Information", "CmdOrCtrl+Shift+I"),
        item("hide_names", "Hide Names && Avatars", "CmdOrCtrl+Shift+N"),
        bare_item("always_on_top", "Toggle Always on Top"),
    ];
    assert(Seq::new(entries@.len(), |i: int| entries@[i]@) =~= view_entries());
    if debug {
        let ghost before = entries@;
        entries.push(native(NativeItem::Separator));
        entries.push(item("devtools", "Toggle Developer Tools", "CmdOrCtrl+Alt+I"));
        assert forall|i: int| 0 <= i < entries@.len() implies (#[trigger] entries@[i])@ == (
        view_entries() + debug_entries())[i] by {
            if i < before.len() {
                assert(entries@[i] == before[i]);
                assert(before[i]@ == view_entries()[i]);
            }
        }
    }
    let menu = Menu { title: "View".to_string(), entries };
    assert(menu@.entries =~= (if debug {
        view_entries() + debug_entries()
    } else {
        view_entries()
    }));
    menu
}

fn window_menu() -> (menu: Menu)
    ensures
        menu@ == (MenuView { title: "Window"@, entries: window_entries() }),
{
    let entries: Vec<MenuEntry> = vec![
        native(NativeItem::Minimize),
        bare_item("maximize", "Zoom"),
        native(NativeItem::Separator),
        native(NativeItem::CloseWindow),
    ];
    let menu = Menu { title: "Window".to_string(), entries };
    assert(menu@.entries =~= window_entries());
    menu
}

/// The menu bar, with the app called `app_title`. A debug build has the
/// developer tools in addition.
pub fn build_menu(app_title: &str, debug: bool) -> (menus: Vec<Menu>)
    ensures
        menus_view(menus@) == menu_bar(app_title@, debug),
{
    let menus: Vec<Menu> = vec![
        app_menu(app_title),
        file_menu(),
        edit_menu(),
        view_menu(debug),
        window_menu(),
    ];
    assert(menus_view(menus@) =~= menu_bar(app_title@, debug));
    menus
}

// ---------------------------------------------------------------------------
// Actions
// ---------------------------------------------------------------------------

/// Something the page is asked to do.
#[derive(Clone, Copy, PartialEq, Eq, Structural, Debug)]
pub enum PageCommand {
    /// Load again.
    Reload,
    /// Zoom in.
    ZoomIn,
    /// Zoom out.
    ZoomOut,
    /// Go back to the actual size.
    ZoomReset,
    /// Paste as plain text.
    PasteAndMatchStyle,
    /// Show or hide the conversation's information.
    ToggleInfo,
}

/// What a menu item does.
#[derive(Clone, Copy, PartialEq, Eq, Structural, Debug)]
pub enum MenuAction {
    /// Opens the settings dialog.
    OpenSettings,
    /// Asks the page in the target window for something.
    Page(PageCommand),
    /// Changes the settings.
    Change(SettingsChange),
    /// Maximizes the target window, or restores it.
    ToggleMaximized,
    /// Opens another window.
    NewWindow,
    /// Schedules the web view's data to be cleared and restarts.
    ClearCacheAndRestart,
    /// Opens the developer tools.
    OpenDevtools,
    /// Nothing.
    Ignore,
}

/// What the item with this id does.
pub open spec fn action_for(id: Seq<char>, debug: bool) -> MenuAction {
    if id == "preferences"@ {
        MenuAction::OpenSettings
    } else if id == "reload"@ {
        MenuAction::Page(PageCommand::Reload)
    } else if id == "zoom_in"@ {
        MenuAction::Page(PageCommand::ZoomIn)
    } else if id == "zoom_out"@ {
        MenuAction::Page(PageCommand::ZoomOut)
    } else if id == "zoom_reset"@ {
        MenuAction::Page(PageCommand::ZoomReset)
    } else if id == "paste_match_style"@ {
        MenuAction::Page(PageCommand::PasteAndMatchStyle)
    } else if id == "theme_system"@ {
        MenuAction::Change(SettingsChange::Theme(ThemeChoice::System))
    } else if id == "theme_light"@ {
        MenuAction::Change(SettingsChange::Theme(ThemeChoice::Light))
    } else if id == "theme_dark"@ {
        MenuAction::Change(SettingsChange::Theme(ThemeChoice::Dark))
    } else if id == "toggle_info"@ {
        MenuAction::Page(PageCommand::ToggleInfo)
    } else if id == "hide_names"@ {
        MenuAction::Change(SettingsChange::ToggleHideNames)
    } else if id == "maximize"@ {
        MenuAction::ToggleMaximized
    } else if id == "new_window"@ {
        MenuAction::NewWindow
    } else if id == "clear_cache"@ {
        MenuAction::ClearCacheAndRestart
    } else if id == "always_on_top"@ {
        MenuAction::Change(SettingsChange::ToggleAlwaysOnTop)
    } else if id == "devtools"@ && debug {
        MenuAction::OpenDevtools
    } else {
        MenuAction::Ignore
    }
}

/// What the item with this id does. The developer tools open in a debug build
/// only; an unknown id does nothing.
pub fn handle_menu_event(id: &str, debug: bool) -> (action: MenuAction)
    ensures
        action == action_for(id@, debug),
{
    if same_text(id, "preferences") {
        MenuAction::OpenSettings
    } else if same_text(id, "reload") {
        MenuAction::Page(PageCommand::Reload)
    } else if same_text(id, "zoom_in") {
        MenuAction::Page(PageCommand::ZoomIn)
    } else if same_text(id, "zoom_out") {
        MenuAction::Page(PageCommand::ZoomOut)
    } else if same_text(id, "zoom_reset") {
        MenuAction::Page(PageCommand::ZoomReset)
    } else if same_text(id, "paste_match_style") {
        MenuAction::Page(PageCommand::PasteAndMatchStyle)
    } else if same_text(id, "theme_system") {
        MenuAction::Change(SettingsChange::Theme(ThemeChoice::System))
    } else if same_text(id, "theme_light") {
        MenuAction::Change(SettingsChange::Theme(ThemeChoice::Light))
    } else if same_text(id, "theme_dark") {
        MenuAction::Change(SettingsChange::Theme(ThemeChoice::Dark))
    } else if same_text(id, "toggle_info") {
        MenuAction::Page(PageCommand::ToggleInfo)
    } else if same_text(id, "hide_names") {
        MenuAction::Change(SettingsChange::ToggleHideNames)
    } else if same_text(id, "maximize") {
        MenuAction::ToggleMaximized
    } else if same_text(id, "new_window") {
        MenuAction::NewWindow
    } else if same_text(id, "clear_cache") {
        MenuAction::ClearCacheAndRestart
    } else if same_text(id, "always_on_top") {
        MenuAction::Change(SettingsChange::ToggleAlwaysOnTop)
    } else if same_text(id, "devtools") && debug {
        MenuAction::OpenDevtools
    } else {
        MenuAction::Ignore
    }
}

/// The script that has the page obey `command`.
pub open spec fn script_for(command: PageCommand) -> Seq<char> {
    match command {
        PageCommand::Reload => "location.reload()"@,
        PageCommand::ZoomIn => "window.__carrierZoomIn && window.__carrierZoomIn()"@,
        PageCommand::ZoomOut => "window.__carrierZoomOut && window.__carrierZoomOut()"@,
        PageCommand::ZoomReset => "window.__carrierZoomReset && window.__carrierZoomReset()"@,
        PageCommand::PasteAndMatchStyle =>
            "navigator.clipboard && navigator.clipboard.readText().then(function (t) { document.execCommand('insertText', false, t); })"@,
        PageCommand::ToggleInfo => "window.__carrierToggleInfo && window.__carrierToggleInfo()"@,
    }
}

/// The script that has the page obey `command`.
pub fn page_script(command: PageCommand) -> (script: &'static str)
    ensures
        script@ == script_for(command),
{
    match command {
        PageCommand::Reload => "location.reload()",
        PageCommand::ZoomIn => "window.__carrierZoomIn && window.__carrierZoomIn()",
        PageCommand::ZoomOut => "window.__carrierZoomOut && window.__carrierZoomOut()",
        PageCommand::ZoomReset => "window.__carrierZoomReset && window.__carrierZoomReset()",
        PageCommand::PasteAndMatchStyle =>
            "navigator.clipboard && navigator.clipboard.readText().then(function (t) { document.execCommand('insertText', false, t); })",
        PageCommand::ToggleInfo => "window.__carrierToggleInfo && window.__carrierToggleInfo()",
    }
}

/// Whether choosing `entry` has an effect: every item of the app's own in it is
/// one that does something.
pub open spec fn effective_entry(entry: EntryView, debug: bool) -> bool {
    match entry {
        EntryView::Native(_) => true,
        EntryView::Item(item) => action_for(item.id, debug) != MenuAction::Ignore,
        EntryView::Submenu(_, items) => forall|i: int|
            0 <= i < items.len() ==> action_for((#[trigger] items[i]).id, debug)
                != MenuAction::Ignore,
    }
}

/// No item of the menu bar is dead: each one does something when it is chosen.
pub proof fn every_menu_item_does_something(app_title: Seq<char>, debug: bool, m: int, e: int)
    requires
        0 <= m < menu_bar(app_title, debug).len(),
        0 <= e < menu_bar(app_title, debug)[m].entries.len(),
    ensures
        effective_entry(menu_bar(app_title, debug)[m].entries[e], debug),
{
    let entries = menu_bar(app_title, debug)[m].entries;
    if m == 3 && debug && e >= view_entries().len() {
        assert(entries[e] == debug_entries()[e - view_entries().len()]);
    } else if m == 3 {
        assert(entries[e] == view_entries()[e]);
        if e == 7 {
            assert forall|i: int| 0 <= i < theme_items().len() implies action_for(
                (#[trigger] theme_items()[i]).id,
                debug,
            ) != MenuAction::Ignore by {}
        }
    }
}

/// What an item is called and what keys stand for it, by its id.
pub open spec fn described(item: ItemView) -> bool {
    let id = item.id;
    let label = item.label;
    let keys = item.accelerator;
    ||| id == "preferences"@ && label == "Settings\u{2026}"@ && keys == Some("CmdOrCtrl+,"@)
    ||| id == "new_window"@ && label == "New Window"@ && keys == Some("CmdOrCtrl+N"@)
    ||| id == "paste_match_style"@ && label == "Paste and Match Style"@ && keys == Some(
        "CmdOrCtrl+Shift+Alt+V"@,
    )
    ||| id == "reload"@ && label == "Reload"@ && keys == Some("CmdOrCtrl+R"@)
    ||| id == "clear_cache"@ && label == "Clear Cache && Restart"@ && keys == Some(
        "CmdOrCtrl+Shift+Backspace"@,
    )
    ||| id == "zoom_reset"@ && label == "Actual Size"@ && keys == Some("CmdOrCtrl+0"@)
    ||| id == "zoom_in"@ && label == "Zoom In"@ && keys == Some("CmdOrCtrl+="@)
    ||| id == "zoom_out"@ && label == "Zoom Out"@ && keys == Some("CmdOrCtrl+-"@)
    ||| id == "theme_system"@ && label == "System"@ && keys is None
    ||| id == "theme_light"@ && label == "Light"@ && keys is None
    ||| id == "theme_dark"@ && label == "Dark"@ && keys is None
    ||| id == "toggle_info"@ && label == "Toggle Conversation Information"@ && keys == Some(
        "CmdOrCtrl+Shift+I"@,
    )
    ||| id == "hide_names"@ && label == "Hide Names && Avatars"@ && keys == Some(
        "CmdOrCtrl+Shift+N"@,
    )
    ||| id == "always_on_top"@ && label == "Toggle Always on Top"@ && keys is None
    ||| id == "devtools"@ && label == "Toggle Developer Tools"@ && keys == Some(
        "CmdOrCtrl+Alt+I"@,
    )
    ||| id == "maximize"@ && label == "Zoom"@ && keys is None
}

/// Whatever item of the app's own stands in the menu bar, its label and its keys
/// are those of its id.
pub proof fn menu_items_are_as_described(app_title: Seq<char>, debug: bool, m: int, e: int)
    requires
        0 <= m < menu_bar(app_title, debug).len(),
        0 <= e < menu_bar(app_title, debug)[m].entries.len(),
    ensures
        match menu_bar(app_title, debug)[m].entries[e] {
            EntryView::Native(_) => true,
            EntryView::Item(item) => described(item),
            EntryView::Submenu(title, items) => title == "Theme"@ && items.len() == 3 && forall|i: int|
                0 <= i < items.len() ==> described(#[trigger] items[i]),
        },
{
    let entries = menu_bar(app_title, debug)[m].entries;
    if m == 3 && debug && e >= view_entries().len() {
        assert(entries[e] == debug_entries()[e - view_entries().len()]);
    } else if m == 3 {
        assert(entries[e] == view_entries()[e]);
        if e == 7 {
            assert forall|i: int| 0 <= i < theme_items().len() implies described(
                #[trigger] theme_items()[i],
            ) by {}
        }
    }
}

/// The id of an item of the app's own.
pub open spec fn id_at(entries: Seq<EntryView>, e: int, id: Seq<char>) -> bool {
    0 <= e < entries.len() && (entries[e] matches EntryView::Item(item) && item.id == id)
}

/// What stands where in the menu bar.
pub proof fn menu_bar_is_laid_out(app_title: Seq<char>, debug: bool)
    ensures
        ({
            let bar = menu_bar(app_title, debug);
            let line = EntryView::Native(NativeItem::Separator);
            &&& bar.len() == 5
            &&& bar[0].title == app_title && bar[1].title == "File"@ && bar[2].title == "Edit"@
            &&& bar[3].title == "View"@ && bar[4].title == "Window"@
            &&& bar[0].entries.len() == 7 && bar[1].entries.len() == 3
            &&& bar[2].entries.len() == 8 && bar[4].entries.len() == 4
            &&& bar[3].entries.len() == (if debug {
                13int
            } else {
                11int
            })
            &&& bar[0].entries[0] == EntryView::Native(NativeItem::About)
            &&& bar[0].entries[1] == line && id_at(bar[0].entries, 2, "preferences"@)
            &&& bar[0].entries[3] == line && bar[0].entries[4] == EntryView::Native(
                NativeItem::Hide,
            )
            &&& bar[0].entries[5] == line && bar[0].entries[6] == EntryView::Native(
                NativeItem::Quit,
            )
            &&& id_at(bar[1].entries, 0, "new_window"@) && bar[1].entries[1] == line
            &&& bar[1].entries[2] == EntryView::Native(NativeItem::CloseWindow)
            &&& bar[2].entries[0] == EntryView::Native(NativeItem::Undo)
            &&& bar[2].entries[1] == EntryView::Native(NativeItem::Redo)
            &&& bar[2].entries[2] == line
            &&& bar[2].entries[3] == EntryView::Native(NativeItem::Cut)
            &&& bar[2].entries[4] == EntryView::Native(NativeItem::Copy)
            &&& bar[2].entries[5] == EntryView::Native(NativeItem::Paste)
            &&& id_at(bar[2].entries, 6, "paste_match_style"@)
            &&& bar[2].entries[7] == EntryView::Native(NativeItem::SelectAll)
            &&& bar[4].entries[0] == EntryView::Native(NativeItem::Minimize)
            &&& id_at(bar[4].entries, 1, "maximize"@) && bar[4].entries[2] == line
            &&& bar[4].entries[3] == EntryView::Native(NativeItem::CloseWindow)
        }),
{
}

/// What stands where in the view menu; a debug build only adds to its end.
pub proof fn view_menu_is_laid_out(app_title: Seq<char>, debug: bool)
    ensures
        ({
            let entries = menu_bar(app_title, debug)[3].entries;
            let line = EntryView::Native(NativeItem::Separator);
            &&& id_at(entries, 0, "reload"@) && id_at(entries, 1, "clear_cache"@)
            &&& entries[2] == line
            &&& id_at(entries, 3, "zoom_reset"@) && id_at(entries, 4, "zoom_in"@)
            &&& id_at(entries, 5, "zoom_out"@) && entries[6] == line
            &&& entries[7] matches EntryView::Submenu(_, items) && items.len() == 3 && items[0].id
                == "theme_system"@ && items[1].id == "theme_light"@ && items[2].id == "theme_dark"@
            &&& id_at(entries, 8, "toggle_info"@) && id_at(entries, 9, "hide_names"@)
            &&& id_at(entries, 10, "always_on_top"@)
            &&& debug ==> entries[11] == line && id_at(entries, 12, "devtools"@)
        }),
{
    let entries = menu_bar(app_title, debug)[3].entries;
    assert forall|e: int| 0 <= e < 11 implies #[trigger] entries[e] == view_entries()[e] by {}
    if debug {
        assert(entries[11] == debug_entries()[0]);
        assert(entries[12] == debug_entries()[1]);
    }
}

/// No two ids do the same, and only the developer tools depend on the build.
pub proof fn ids_have_actions_of_their_own(a: Seq<char>, b: Seq<char>, debug: bool)
    ensures
        action_for(a, debug) == action_for(b, debug) && action_for(a, debug) != MenuAction::Ignore
            ==> a == b,
        a != "devtools"@ ==> action_for(a, true) == action_for(a, false),
        action_for(a, false) != MenuAction::OpenDevtools,
{
}

/// Each action belongs to the id that is named after it; so an unknown id does
/// nothing.
pub proof fn actions_belong_to_their_ids(id: Seq<char>, debug: bool)
    ensures
        match action_for(id, debug) {
            MenuAction::OpenSettings => id == "preferences"@,
            MenuAction::Page(PageCommand::Reload) => id == "reload"@,
            MenuAction::Page(PageCommand::ZoomIn) => id == "zoom_in"@,
            MenuAction::Page(PageCommand::ZoomOut) => id == "zoom_out"@,
            MenuAction::Page(PageCommand::ZoomReset) => id == "zoom_reset"@,
            MenuAction::Page(PageCommand::PasteAndMatchStyle) => id == "paste_match_style"@,
            MenuAction::Page(PageCommand::ToggleInfo) => id == "toggle_info"@,
            MenuAction::Change(SettingsChange::Theme(ThemeChoice::System)) => id
                == "theme_system"@,
            MenuAction::Change(SettingsChange::Theme(ThemeChoice::Light)) => id == "theme_light"@,
            MenuAction::Change(SettingsChange::Theme(ThemeChoice::Dark)) => id == "theme_dark"@,
            MenuAction::Change(SettingsChange::ToggleHideNames) => id == "hide_names"@,
            MenuAction::Change(SettingsChange::ToggleAlwaysOnTop) => id == "always_on_top"@,
            MenuAction::ToggleMaximized => id == "maximize"@,
            MenuAction::NewWindow => id == "new_window"@,
            MenuAction::ClearCacheAndRestart => id == "clear_cache"@,
            MenuAction::OpenDevtools => id == "devtools"@ && debug,
            MenuAction::Ignore => id != "preferences"@ && id != "reload"@ && id != "zoom_in"@ && id
                != "zoom_out"@ && id != "zoom_reset"@ && id != "paste_match_style"@ && id
                != "toggle_info"@ && id != "theme_system"@ && id != "theme_light"@ && id
                != "theme_dark"@ && id != "hide_names"@ && id != "always_on_top"@ && id
                != "maximize"@ && id != "new_window"@ && id != "clear_cache"@ && (id
                != "devtools"@ || !debug),
        },
{
}

} // verus!
