//! Windows and the tray: what is shown, hidden and rebuilt, and that the app can
//! always be reached.

use vstd::prelude::*;

use crate::number::{decimal, decimal_is_injective, decimal_text};
use crate::platform::Platform;
use crate::settings::{tray_wanted, wants_tray, Settings, SettingsView};
use crate::text::{concat_text, same_text};

verus! {

// ---------------------------------------------------------------------------
// Labels
// ---------------------------------------------------------------------------

/// The label of the first window.
pub const MAIN_LABEL: &'static str = "main";

/// The label of the settings dialog.
pub const SETTINGS_LABEL: &'static str = "settings";

/// The label of extra window number `n`.
pub open spec fn extra_label(n: nat) -> Seq<char> {
    "win-"@ + decimal(n)
}

/// The label of extra window number `n`.
pub fn window_label(n: u64) -> (label: String)
    ensures
        label@ == extra_label(n as nat),
{
    concat_text("win-", decimal_text(n).as_str())
}

/// Extra windows have labels of their own: different from each other, from the
/// first window and from the settings dialog.
pub proof fn window_labels_are_distinct(a: nat, b: nat)
    ensures
        extra_label(a) == extra_label(b) ==> a == b,
        extra_label(a) != MAIN_LABEL@,
        extra_label(a) != SETTINGS_LABEL@,
        MAIN_LABEL@ != SETTINGS_LABEL@,
{
    reveal_strlit("win-");
    reveal_strlit("main");
    reveal_strlit("settings");
    assert(extra_label(a).skip(4) =~= decimal(a));
    assert(extra_label(b).skip(4) =~= decimal(b));
    decimal_is_injective(a, b);
    assert(extra_label(a)[0] == 'w');
    assert(MAIN_LABEL@[0] == 'm');
    assert(SETTINGS_LABEL@[0] == 's');
}

/// Whether the window with this label shows Messenger, as all do but the
/// settings dialog.
pub fn shows_messenger(label: &str) -> (yes: bool)
    ensures
        yes == (label@ != SETTINGS_LABEL@),
{
    !same_text(label, SETTINGS_LABEL)
}

/// The title of the settings dialog.
pub fn settings_title(app_title: &str) -> (title: String)
    ensures
        title@ == app_title@ + " Settings"@,
{
    concat_text(app_title, " Settings")
}

// ---------------------------------------------------------------------------
// The window that a menu action is for
// ---------------------------------------------------------------------------

/// An open window.
#[derive(Debug)]
pub struct WindowState {
    /// Its label.
    pub label: String,
    /// Whether it has the focus.
    pub focused: bool,
}

/// Whether a menu action is for this window, before any other is considered.
pub open spec fn focused_messenger(w: WindowState) -> bool {
    w.label@ != SETTINGS_LABEL@ && w.focused
}

/// Whether `i` is the first window of `windows` that shows Messenger and has the
/// focus.
pub open spec fn first_focused(windows: Seq<WindowState>, i: int) -> bool {
    &&& 0 <= i < windows.len()
    &&& focused_messenger(windows[i])
    &&& forall|j: int| 0 <= j < i ==> !focused_messenger(#[trigger] windows[j])
}

/// Whether `i` is the first window of `windows` with the label of the main one.
pub open spec fn first_main(windows: Seq<WindowState>, i: int) -> bool {
    &&& 0 <= i < windows.len()
    &&& windows[i].label@ == MAIN_LABEL@
    &&& forall|j: int| 0 <= j < i ==> (#[trigger] windows[j]).label@ != MAIN_LABEL@
}

/// Whether no window of `windows` shows Messenger and has the focus.
pub open spec fn none_focused(windows: Seq<WindowState>) -> bool {
    forall|j: int| 0 <= j < windows.len() ==> !focused_messenger(#[trigger] windows[j])
}

/// Whether no window of `windows` has the label of the main one.
pub open spec fn none_main(windows: Seq<WindowState>) -> bool {
    forall|j: int| 0 <= j < windows.len() ==> (#[trigger] windows[j]).label@ != MAIN_LABEL@
}

/// The window that a menu action is for: the Messenger window that has the
/// focus, or else the main window. The settings dialog never is.
pub fn target_window(windows: &Vec<WindowState>) -> (target: Option<usize>)
    ensures
        match target {
            Some(i) => {
                ||| first_focused(windows@, i as int)
                ||| first_main(windows@, i as int) && none_focused(windows@)
            },
            None => none_focused(windows@) && none_main(windows@),
        },
{
    let mut i: usize = 0;
    while i < windows.len()
        invariant
            i <= windows.len(),
            forall|j: int| 0 <= j < i ==> !focused_messenger(#[trigger] windows@[j]),
        decreases windows.len() - i,
    {
        if windows[i].focused && shows_messenger(windows[i].label.as_str()) {
            return Some(i);
        }
        i += 1;
    }
    let mut k: usize = 0;
    while k < windows.len()
        invariant
            k <= windows.len(),
            forall|j: int| 0 <= j < windows.len() ==> !focused_messenger(#[trigger] windows@[j]),
            forall|j: int| 0 <= j < k ==> (#[trigger] windows@[j]).label@ != MAIN_LABEL@,
        decreases windows.len() - k,
    {
        if same_text(windows[k].label.as_str(), MAIN_LABEL) {
            return Some(k);
        }
        k += 1;
    }
    None
}

// ---------------------------------------------------------------------------
// Rebuilding windows
// ---------------------------------------------------------------------------

/// A window to be rebuilt.
#[derive(Debug)]
pub struct RebuildTarget {
    /// Its label.
    pub label: String,
    /// Whether the rebuilt window needs the main window's handling of close
    /// requests.
    pub handles_close: bool,
}

/// The model of a [`RebuildTarget`].
pub struct RebuildTargetView {
    /// Its label.
    pub label: Seq<char>,
    /// Whether it handles close requests.
    pub handles_close: bool,
}

impl View for RebuildTarget {
    type V = RebuildTargetView;

    open spec fn view(&self) -> RebuildTargetView {
        RebuildTargetView { label: self.label@, handles_close: self.handles_close }
    }
}

/// The models of a row of targets.
pub open spec fn targets_view(targets: Seq<RebuildTarget>) -> Seq<RebuildTargetView> {
    Seq::new(targets.len(), |i: int| targets[i]@)
}

/// The windows to rebuild out of those with these labels: all that show
/// Messenger, in order.
pub open spec fn rebuilt(labels: Seq<String>) -> Seq<RebuildTargetView>
    decreases labels.len(),
{
    if labels.len() == 0 {
        Seq::<RebuildTargetView>::empty()
    } else {
        let before = rebuilt(labels.drop_last());
        let label = labels.last()@;
        if label == SETTINGS_LABEL@ {
            before
        } else {
            before.push(RebuildTargetView { label, handles_close: label == MAIN_LABEL@ })
        }
    }
}

/// The windows to destroy and rebuild, given the labels of all open windows.
/// `None` where a rebuild is already running: two that overlap could let the app
/// quit in the moment when it has no window.
pub fn rebuild_plan(already_running: bool, labels: &Vec<String>) -> (plan: Option<
    Vec<RebuildTarget>,
>)
    ensures
        plan is None == already_running,
        plan matches Some(targets) ==> targets_view(targets@) == rebuilt(labels@),
{
    if already_running {
        return None;
    }
    let mut targets: Vec<RebuildTarget> = Vec::new();
    let mut i: usize = 0;
    assert(targets_view(targets@) =~= rebuilt(labels@.take(0)));
    while i < labels.len()
        invariant
            i <= labels.len(),
            targets_view(targets@) == rebuilt(labels@.take(i as int)),
        decreases labels.len() - i,
    {
        let ghost before = targets_view(targets@);
        assert(labels@.take(i + 1).drop_last() =~= labels@.take(i as int));
        if shows_messenger(labels[i].as_str()) {
            let handles_close = same_text(labels[i].as_str(), MAIN_LABEL);
            targets.push(RebuildTarget { label: labels[i].clone(), handles_close });
            assert(targets_view(targets@) =~= before.push(
                RebuildTargetView {
                    label: labels@[i as int]@,
                    handles_close: labels@[i as int]@ == MAIN_LABEL@,
                },
            ));
        }
        i += 1;
    }
    assert(labels@.take(i as int) =~= labels@);
    Some(targets)
}

/// A rebuild leaves the settings dialog alone, and gives back to the main
/// window, and to no other, its handling of close requests.
pub proof fn rebuild_restores_close_handling(labels: Seq<String>, i: int)
    requires
        0 <= i < rebuilt(labels).len(),
    ensures
        rebuilt(labels)[i].label != SETTINGS_LABEL@,
        rebuilt(labels)[i].handles_close == (rebuilt(labels)[i].label == MAIN_LABEL@),
    decreases labels.len(),
{
    if labels.len() > 0 {
        let before = rebuilt(labels.drop_last());
        if i < before.len() {
            rebuild_restores_close_handling(labels.drop_last(), i);
        }
    }
}

/// Every window that shows Messenger is rebuilt under its own label.
pub proof fn every_messenger_window_is_rebuilt(labels: Seq<String>, i: int)
    requires
        0 <= i < labels.len(),
        labels[i]@ != SETTINGS_LABEL@,
    ensures
        exists|k: int|
            0 <= k < rebuilt(labels).len() && #[trigger] rebuilt(labels)[k].label == labels[i]@,
    decreases labels.len(),
{
    let front = labels.drop_last();
    if i < front.len() {
        every_messenger_window_is_rebuilt(front, i);
        let k = choose|k: int|
            0 <= k < rebuilt(front).len() && #[trigger] rebuilt(front)[k].label == front[i]@;
        assert(rebuilt(labels)[k] == rebuilt(front)[k]);
    } else {
        let k = rebuilt(front).len() as int;
        assert(rebuilt(labels)[k].label == labels[i]@);
    }
}

/// Whether the app may end because its last window is gone.
pub open spec fn may_exit(rebuilding: bool) -> bool {
    !rebuilding
}

/// Whether the app may end because its last window is gone: not in the moment
/// without windows that a rebuild has.
pub fn exit_allowed(rebuilding: bool) -> (yes: bool)
    ensures
        yes == may_exit(rebuilding),
{
    !rebuilding
}

/// The app as far as rebuilds are concerned.
pub struct Life {
    /// Whether it runs.
    pub running: bool,
    /// Whether a rebuild is running.
    pub rebuilding: bool,
}

/// Something that happens around a rebuild.
pub enum LifeEvent {
    /// A rebuild is asked for.
    RebuildRequested,
    /// The rebuild that was running is done.
    RebuildFinished,
    /// The last window is gone.
    LastWindowGone,
}

/// The app after `event`.
pub open spec fn life_after(life: Life, event: LifeEvent) -> Life {
    match event {
        LifeEvent::RebuildRequested => Life { rebuilding: true, ..life },
        LifeEvent::RebuildFinished => Life { rebuilding: false, ..life },
        LifeEvent::LastWindowGone => Life {
            running: life.running && !may_exit(life.rebuilding),
            ..life
        },
    }
}

/// The app after all of `events`.
pub open spec fn life_after_all(life: Life, events: Seq<LifeEvent>) -> Life
    decreases events.len(),
{
    if events.len() == 0 {
        life
    } else {
        life_after(life_after_all(life, events.drop_last()), events.last())
    }
}

/// From the moment a rebuild is asked for until it is done the app goes on,
/// whatever windows go and however many more rebuilds are asked for.
pub proof fn rebuild_keeps_the_app_running(life: Life, events: Seq<LifeEvent>)
    requires
        life.running,
        forall|i: int| 0 <= i < events.len() ==> !(#[trigger] events[i] is RebuildFinished),
    ensures
        life_after_all(life_after(life, LifeEvent::RebuildRequested), events).running,
        life_after_all(life_after(life, LifeEvent::RebuildRequested), events).rebuilding,
    decreases events.len(),
{
    if events.len() > 0 {
        rebuild_keeps_the_app_running(life, events.drop_last());
    }
}

// ---------------------------------------------------------------------------
// Showing, hiding and closing
// ---------------------------------------------------------------------------

/// What to do with the main window.
#[derive(Clone, Copy, PartialEq, Eq, Structural, Debug)]
pub enum WindowAction {
    /// Show it, restore it and give it the focus.
    Show,
    /// Hide it.
    Hide,
}

/// What a click on the tray icon does.
pub open spec fn toggled(visible: bool, focused: bool) -> WindowAction {
    if visible && focused {
        WindowAction::Hide
    } else {
        WindowAction::Show
    }
}

/// What a click on the tray icon does: hides the main window if it is the one in
/// use, and brings it forward otherwise.
pub fn toggle_main(visible: bool, focused: bool) -> (action: WindowAction)
    ensures
        action == toggled(visible, focused),
{
    if visible && focused {
        WindowAction::Hide
    } else {
        WindowAction::Show
    }
}

/// What to do with the size of a window.
#[derive(Clone, Copy, PartialEq, Eq, Structural, Debug)]
pub enum SizeAction {
    /// Maximize it.
    Maximize,
    /// Give it back the size it had before.
    Restore,
}

/// What the menu item for the size of a window does: the opposite of what was
/// done last.
pub fn toggle_maximized(maximized: bool) -> (action: SizeAction)
    ensures
        action == (if maximized {
            SizeAction::Restore
        } else {
            SizeAction::Maximize
        }),
{
    if maximized {
        SizeAction::Restore
    } else {
        SizeAction::Maximize
    }
}

/// What closing the main window does.
#[derive(Clone, Copy, PartialEq, Eq, Structural, Debug)]
pub enum CloseAction {
    /// The window hides, and the app goes on.
    HideToTray,
    /// The app ends.
    Quit,
}

/// What closing the main window does.
pub open spec fn closed(s: SettingsView, has_tray: bool) -> CloseAction {
    if s.hide_on_close && has_tray {
        CloseAction::HideToTray
    } else {
        CloseAction::Quit
    }
}

/// What closing the main window does: it hides if the user wants that and a tray
/// icon was really created, and ends the app otherwise.
pub fn close_action(s: &Settings, has_tray: bool) -> (action: CloseAction)
    ensures
        action == closed(s@, has_tray),
{
    if s.hide_on_close && has_tray {
        CloseAction::HideToTray
    } else {
        CloseAction::Quit
    }
}

/// Whether the app starts with its window hidden.
pub open spec fn hidden_at_start(s: SettingsView, has_tray: bool) -> bool {
    s.start_to_tray && has_tray
}

/// Whether the app starts with its window hidden: only when a tray icon was
/// created to open it from.
pub fn starts_hidden(s: &Settings, has_tray: bool) -> (yes: bool)
    ensures
        yes == hidden_at_start(s@, has_tray),
{
    s.start_to_tray && has_tray
}

// ---------------------------------------------------------------------------
// The tray icon and the Dock
// ---------------------------------------------------------------------------

/// What to do about the tray icon.
#[derive(Clone, Copy, PartialEq, Eq, Structural, Debug)]
pub enum TrayAction {
    /// Create it.
    Create,
    /// Show the main window, then remove the icon.
    ShowMainAndRemove,
    /// Leave it as it is.
    Keep,
}

/// What to do about the tray icon under `s`.
pub open spec fn tray_step(s: SettingsView, present: bool) -> TrayAction {
    if tray_wanted(s) && !present {
        TrayAction::Create
    } else if !tray_wanted(s) && present {
        TrayAction::ShowMainAndRemove
    } else {
        TrayAction::Keep
    }
}

/// What to do about the tray icon, given whether there is one. Before the icon,
/// and with it the way back, is removed, the main window is shown.
pub fn tray_action(s: &Settings, present: bool) -> (action: TrayAction)
    ensures
        action == tray_step(s@, present),
{
    let wanted = wants_tray(s);
    if wanted && !present {
        TrayAction::Create
    } else if !wanted && present {
        TrayAction::ShowMainAndRemove
    } else {
        TrayAction::Keep
    }
}

/// How the app appears on macOS.
#[derive(Clone, Copy, PartialEq, Eq, Structural, Debug)]
pub enum Activation {
    /// With a Dock icon.
    Regular,
    /// With a Dock icon, and the main window is to be shown.
    RegularAndShowMain,
    /// Without a Dock icon.
    Accessory,
}

/// How the app appears on macOS under `s`.
pub open spec fn activation(s: SettingsView, tray_available: bool) -> Activation {
    if !s.menu_bar_only {
        Activation::Regular
    } else if tray_available {
        Activation::Accessory
    } else {
        Activation::RegularAndShowMain
    }
}

/// How the app appears on macOS. It goes without a Dock icon only when there is
/// a tray icon to reach it from.
pub fn activation_for(s: &Settings, tray_available: bool) -> (how: Activation)
    ensures
        how == activation(s@, tray_available),
{
    if !s.menu_bar_only {
        Activation::Regular
    } else if tray_available {
        Activation::Accessory
    } else {
        Activation::RegularAndShowMain
    }
}

// ---------------------------------------------------------------------------
// Reachability
// ---------------------------------------------------------------------------

/// What the user can see of the app.
pub struct Shell {
    /// Whether it runs.
    pub running: bool,
    /// Whether the main window is visible.
    pub visible: bool,
    /// Whether there is a tray icon.
    pub tray: bool,
    /// Whether it has no Dock icon.
    pub dockless: bool,
}

/// Something that happens to the app.
pub enum ShellEvent {
    /// The settings are applied; creating a tray icon would succeed or not.
    SettingsApplied {
        /// Whether a tray icon can be created.
        tray_works: bool,
    },
    /// The app has just started and applied its settings.
    Started,
    /// The user clicks the tray icon, where there is one.
    TrayClicked {
        /// Whether the main window has the focus.
        focused: bool,
    },
    /// The user closes the main window.
    CloseRequested,
    /// The main window is brought forward, by a notification or a second launch.
    MainShown,
}

/// What the user can see of the app after `event`, under the settings `s`.
pub open spec fn shell_after(
    platform: Platform,
    s: SettingsView,
    shell: Shell,
    event: ShellEvent,
) -> Shell {
    match event {
        ShellEvent::SettingsApplied { tray_works } => {
            let step = tray_step(s, shell.tray);
            let tray = match step {
                TrayAction::Create => tray_works,
                TrayAction::ShowMainAndRemove => false,
                TrayAction::Keep => shell.tray,
            };
            let shown = shell.visible || step == TrayAction::ShowMainAndRemove;
            if platform == Platform::Macos {
                let how = activation(s, tray);
                Shell {
                    running: shell.running,
                    visible: shown || how == Activation::RegularAndShowMain,
                    tray,
                    dockless: how == Activation::Accessory,
                }
            } else {
                Shell { running: shell.running, visible: shown, tray, dockless: shell.dockless }
            }
        },
        ShellEvent::Started => Shell {
            visible: shell.visible && !hidden_at_start(s, shell.tray),
            ..shell
        },
        ShellEvent::TrayClicked { focused } => if shell.tray {
            Shell { visible: toggled(shell.visible, focused) == WindowAction::Show, ..shell }
        } else {
            shell
        },
        ShellEvent::CloseRequested => match closed(s, shell.tray) {
            CloseAction::HideToTray => Shell { visible: false, ..shell },
            CloseAction::Quit => Shell { running: false, ..shell },
        },
        ShellEvent::MainShown => Shell { visible: true, ..shell },
    }
}

/// Whether the user can get at the app while it runs: its window is visible or
/// there is a tray icon, and without a Dock icon there always is one.
pub open spec fn reachable(shell: Shell) -> bool {
    shell.running ==> (shell.visible || shell.tray) && (shell.dockless ==> shell.tray)
}

/// Nothing that happens leaves the app running but out of reach: it is never
/// hidden without a tray icon, and never without both Dock and tray icon.
pub proof fn app_stays_reachable(
    platform: Platform,
    s: SettingsView,
    shell: Shell,
    event: ShellEvent,
)
    requires
        reachable(shell),
        platform != Platform::Macos ==> !shell.dockless,
    ensures
        reachable(shell_after(platform, s, shell, event)),
        platform != Platform::Macos ==> !shell_after(platform, s, shell, event).dockless,
{
}

/// In menu-bar-only mode a tray icon is always wanted.
pub proof fn menu_bar_only_wants_a_tray(s: SettingsView)
    requires
        s.menu_bar_only,
    ensures
        tray_wanted(s),
        tray_step(s, false) == TrayAction::Create,
        tray_step(s, true) == TrayAction::Keep,
{
}

// ---------------------------------------------------------------------------
// Decisions, case by case
// ---------------------------------------------------------------------------

/// Closing the main window hides it exactly where the user wants that and there
/// is a tray icon, and ends the app otherwise, whatever else is set.
pub proof fn closing_hides_when(s: SettingsView, has_tray: bool)
    ensures
        closed(s, has_tray) == CloseAction::HideToTray <==> s.hide_on_close && has_tray,
        closed(s, has_tray) == CloseAction::Quit <==> !s.hide_on_close || !has_tray,
{
}

/// The app starts hidden exactly where the user wants that and there is a tray
/// icon, whatever else is set.
pub proof fn starting_hidden_when(s: SettingsView, has_tray: bool)
    ensures
        hidden_at_start(s, has_tray) <==> s.start_to_tray && has_tray,
{
}

/// A click on the tray icon hides a window that is in front of the user and
/// shows any other; two clicks on a window in use bring it back.
pub proof fn tray_clicks_when(visible: bool, focused: bool)
    ensures
        toggled(visible, focused) == WindowAction::Hide <==> visible && focused,
        toggled(visible, focused) == WindowAction::Show <==> !visible || !focused,
{
}

/// The tray icon comes and goes with the wish for one; nothing is done where
/// there is one that is wanted or none that is not.
pub proof fn tray_follows_the_wish(s: SettingsView, present: bool)
    ensures
        ({
            let wanted = s.show_tray || s.menu_bar_only;
            &&& tray_step(s, present) == TrayAction::Create <==> wanted && !present
            &&& tray_step(s, present) == TrayAction::ShowMainAndRemove <==> !wanted && present
            &&& tray_step(s, present) == TrayAction::Keep <==> wanted == present
        }),
{
}

/// The Dock icon goes exactly where the app runs in the menu bar alone and has a
/// tray icon; without one the main window is shown in its place.
pub proof fn dock_icon_goes_when(s: SettingsView, tray_available: bool)
    ensures
        activation(s, tray_available) == Activation::Accessory <==> s.menu_bar_only
            && tray_available,
        activation(s, tray_available) == Activation::RegularAndShowMain <==> s.menu_bar_only
            && !tray_available,
        activation(s, tray_available) == Activation::Regular <==> !s.menu_bar_only,
{
}

/// Each window is rebuilt for itself: what becomes of some windows is what
/// becomes of them alone, in their order.
pub proof fn windows_are_rebuilt_one_by_one(a: Seq<String>, b: Seq<String>)
    ensures
        rebuilt(a + b) == rebuilt(a) + rebuilt(b),
    decreases b.len(),
{
    if b.len() == 0 {
        assert(a + b =~= a);
        assert(rebuilt(a) + rebuilt(b) =~= rebuilt(a));
    } else {
        let front = b.drop_last();
        windows_are_rebuilt_one_by_one(a, front);
        assert((a + b).drop_last() =~= a + front);
        assert((a + b).last() == b.last());
        assert(rebuilt(a + b) =~= rebuilt(a) + rebuilt(b));
    }
}

/// A window is rebuilt once, under its own label, unless it is the settings
/// dialog; the main window alone handles close requests.
pub proof fn one_window_is_rebuilt_once(label: String)
    ensures
        label@ == "settings"@ ==> rebuilt(seq![label]).len() == 0,
        label@ != "settings"@ ==> rebuilt(seq![label]).len() == 1 && rebuilt(seq![label])[0].label
            == label@ && rebuilt(seq![label])[0].handles_close == (label@ == "main"@),
{
    let one = seq![label];
    assert(one.drop_last() =~= Seq::<String>::empty());
    assert(one.last() == label);
    reveal_with_fuel(rebuilt, 2);
}

/// A menu action is for a window that has the focus and is not the settings
/// dialog, the first there is; the window called "main" is only the last resort.
pub proof fn menu_actions_are_for(windows: Seq<WindowState>, i: int)
    ensures
        first_focused(windows, i) <==> {
            &&& 0 <= i < windows.len()
            &&& windows[i].focused
            &&& windows[i].label@ != "settings"@
            &&& forall|j: int|
                0 <= j < i ==> !((#[trigger] windows[j]).focused && windows[j].label@
                    != "settings"@)
        },
        first_main(windows, i) <==> {
            &&& 0 <= i < windows.len()
            &&& windows[i].label@ == "main"@
            &&& forall|j: int| 0 <= j < i ==> (#[trigger] windows[j]).label@ != "main"@
        },
        0 <= i < windows.len() ==> focused_messenger(windows[i]) == (windows[i].focused
            && windows[i].label@ != "settings"@),
{
    if first_focused(windows, i) {
        assert forall|j: int| 0 <= j < i implies !((#[trigger] windows[j]).focused
            && windows[j].label@ != "settings"@) by {
            assert(!focused_messenger(windows[j]));
        }
    }
}

/// The label of an extra window is "win-" and its number.
pub proof fn extra_windows_are_labelled_by_number(n: nat)
    ensures
        extra_label(n) == seq!['w', 'i', 'n', '-'] + decimal(n),
{
    reveal_strlit("win-");
    assert("win-"@ =~= seq!['w', 'i', 'n', '-']);
}

} // verus!
