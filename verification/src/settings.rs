//! The settings: their defaults, and what becomes of a change.

use vstd::prelude::*;

use crate::platform::Platform;
use crate::text::{concat_text, same_text};

verus! {

/// The user's preferences.
#[derive(Debug)]
pub struct Settings {
    /// Keep the windows above all others.
    pub always_on_top: bool,
    /// Show a tray icon.
    pub show_tray: bool,
    /// Start with the window hidden.
    pub start_to_tray: bool,
    /// Start when the system starts.
    pub autostart: bool,
    /// Closing the window hides it.
    pub hide_on_close: bool,
    /// Allow more than one running instance; takes effect at the next launch.
    pub multi_instance: bool,
    /// Check spelling.
    pub spellcheck: bool,
    /// Show the unread count on the Dock or taskbar icon.
    pub unread_badge: bool,
    /// What the badge counts: "messages" or "conversations".
    pub badge_mode: String,
    /// The theme: "system", "light" or "dark".
    pub theme: String,
    /// macOS: run as a menu-bar app with no Dock icon.
    pub menu_bar_only: bool,
    /// Suppress all desktop notifications for new messages.
    pub mute_notifications: bool,
    /// Notify without the sender's name or the text.
    pub hide_notification_preview: bool,
    /// Blur contact names and avatars.
    pub hide_names_avatars: bool,
}

/// The model of [`Settings`].
#[verifier::ext_equal]
pub struct SettingsView {
    /// Keep the windows above all others.
    pub always_on_top: bool,
    /// Show a tray icon.
    pub show_tray: bool,
    /// Start with the window hidden.
    pub start_to_tray: bool,
    /// Start when the system starts.
    pub autostart: bool,
    /// Closing the window hides it.
    pub hide_on_close: bool,
    /// Allow more than one running instance.
    pub multi_instance: bool,
    /// Check spelling.
    pub spellcheck: bool,
    /// Show the unread count on the icon.
    pub unread_badge: bool,
    /// What the badge counts.
    pub badge_mode: Seq<char>,
    /// The theme.
    pub theme: Seq<char>,
    /// macOS: no Dock icon.
    pub menu_bar_only: bool,
    /// Suppress notifications.
    pub mute_notifications: bool,
    /// Notify without name and text.
    pub hide_notification_preview: bool,
    /// Blur names and avatars.
    pub hide_names_avatars: bool,
}

impl View for Settings {
    type V = SettingsView;

    open spec fn view(&self) -> SettingsView {
        SettingsView {
            always_on_top: self.always_on_top,
            show_tray: self.show_tray,
            start_to_tray: self.start_to_tray,
            autostart: self.autostart,
            hide_on_close: self.hide_on_close,
            multi_instance: self.multi_instance,
            spellcheck: self.spellcheck,
            unread_badge: self.unread_badge,
            badge_mode: self.badge_mode@,
            theme: self.theme@,
            menu_bar_only: self.menu_bar_only,
            mute_notifications: self.mute_notifications,
            hide_notification_preview: self.hide_notification_preview,
            hide_names_avatars: self.hide_names_avatars,
        }
    }
}

/// The settings of a fresh install.
pub open spec fn default_settings() -> SettingsView {
    SettingsView {
        always_on_top: false,
        show_tray: true,
        start_to_tray: false,
        autostart: false,
        hide_on_close: true,
        multi_instance: false,
        spellcheck: true,
        unread_badge: true,
        badge_mode: "messages"@,
        theme: "system"@,
        menu_bar_only: false,
        mute_notifications: false,
        hide_notification_preview: false,
        hide_names_avatars: false,
    }
}

impl Default for Settings {
    fn default() -> (settings: Self)
        ensures
            settings@ == default_settings(),
    {
        Settings {
            always_on_top: false,
            show_tray: true,
            start_to_tray: false,
            autostart: false,
            hide_on_close: true,
            multi_instance: false,
            spellcheck: true,
            unread_badge: true,
            badge_mode: "messages".to_string(),
            theme: "system".to_string(),
            menu_bar_only: false,
            mute_notifications: false,
            hide_notification_preview: false,
            hide_names_avatars: false,
        }
    }
}

impl Clone for Settings {
    fn clone(&self) -> (copy: Self)
        ensures
            copy@ == self@,
    {
        Settings {
            always_on_top: self.always_on_top,
            show_tray: self.show_tray,
            start_to_tray: self.start_to_tray,
            autostart: self.autostart,
            hide_on_close: self.hide_on_close,
            multi_instance: self.multi_instance,
            spellcheck: self.spellcheck,
            unread_badge: self.unread_badge,
            badge_mode: self.badge_mode.clone(),
            theme: self.theme.clone(),
            menu_bar_only: self.menu_bar_only,
            mute_notifications: self.mute_notifications,
            hide_notification_preview: self.hide_notification_preview,
            hide_names_avatars: self.hide_names_avatars,
        }
    }
}

// ---------------------------------------------------------------------------
// The tray
// ---------------------------------------------------------------------------

/// Whether a tray icon should exist.
pub open spec fn tray_wanted(s: SettingsView) -> bool {
    s.show_tray || s.menu_bar_only
}

/// Whether a tray icon should exist: when the user asked for one, or in
/// menu-bar-only mode, where it is the only way back to the app.
pub fn wants_tray(s: &Settings) -> (yes: bool)
    ensures
        yes == tray_wanted(s@),
{
    s.show_tray || s.menu_bar_only
}

/// Whether a second launch is turned into a visit to the running instance.
pub fn is_single_instance(s: &Settings) -> (yes: bool)
    ensures
        yes == !s@.multi_instance,
{
    !s.multi_instance
}

// ---------------------------------------------------------------------------
// Theme changes
// ---------------------------------------------------------------------------

/// Whether a change of the theme from `prev` to `next` needs the windows to be
/// rebuilt: on macOS the title bar takes its theme at creation.
pub open spec fn rebuild_needed(platform: Platform, prev: Seq<char>, next: Seq<char>) -> bool {
    platform == Platform::Macos && prev != next
}

/// Whether a change of the theme needs the windows to be rebuilt. On macOS the
/// theme of a title bar is fixed at its creation; other platforms re-theme it
/// live, and a rebuild would needlessly reload Messenger.
pub fn recreate_on_theme_change(platform: Platform, prev: &str, next: &str) -> (rebuild: bool)
    ensures
        rebuild == rebuild_needed(platform, prev@, next@),
{
    platform == Platform::Macos && !same_text(prev, next)
}

// ---------------------------------------------------------------------------
// Storing settings
// ---------------------------------------------------------------------------

/// The autostart registration that the system must be asked for before `new`
/// can replace `prev`; `None` where it stays as it is.
pub open spec fn autostart_wanted(prev: SettingsView, new: SettingsView) -> Option<bool> {
    if new.autostart != prev.autostart {
        Some(new.autostart)
    } else {
        None
    }
}

/// The autostart registration that the system must be asked for before `new`
/// can replace `prev`; `None` where it stays as it is.
pub fn autostart_request(prev: &Settings, new: &Settings) -> (request: Option<bool>)
    ensures
        request == autostart_wanted(prev@, new@),
{
    if new.autostart != prev.autostart {
        Some(new.autostart)
    } else {
        None
    }
}

/// The message for a failed change of the autostart registration.
pub fn autostart_error(reason: &str) -> (message: String)
    ensures
        message@ == "Couldn't update Start on System Startup: "@ + reason@,
{
    concat_text("Couldn't update Start on System Startup: ", reason)
}

/// The model of the outcome of an outside operation.
pub open spec fn outcome_view(outcome: Result<(), String>) -> Result<(), Seq<char>> {
    match outcome {
        Ok(()) => Ok(()),
        Err(e) => Err(e@),
    }
}

/// The settings to persist in place of `prev` when `new` is asked for and the
/// system's answer about autostart is `sync`: an autostart preference that the
/// system rejected is not kept, everything else is.
pub open spec fn effective(
    prev: SettingsView,
    new: SettingsView,
    sync: Result<(), Seq<char>>,
) -> SettingsView {
    if autostart_wanted(prev, new) is Some && sync is Err {
        SettingsView { autostart: prev.autostart, ..new }
    } else {
        new
    }
}

/// The autostart failure to report, if there was one.
pub open spec fn sync_failure(
    prev: SettingsView,
    new: SettingsView,
    sync: Result<(), Seq<char>>,
) -> Option<Seq<char>> {
    match sync {
        Err(e) => if autostart_wanted(prev, new) is Some {
            Some(e)
        } else {
            None
        },
        Ok(()) => None,
    }
}

/// Settings on their way to being stored.
#[derive(Debug)]
pub struct PendingStore {
    /// What is to be persisted.
    pub effective: Settings,
    /// What went wrong with autostart, if anything.
    pub autostart_error: Option<String>,
}

/// The model of [`PendingStore`].
#[verifier::ext_equal]
pub struct PendingStoreView {
    /// What is to be persisted.
    pub effective: SettingsView,
    /// What went wrong with autostart, if anything.
    pub autostart_error: Option<Seq<char>>,
}

impl View for PendingStore {
    type V = PendingStoreView;

    open spec fn view(&self) -> PendingStoreView {
        PendingStoreView {
            effective: self.effective@,
            autostart_error: match self.autostart_error {
                Some(e) => Some(e@),
                None => None,
            },
        }
    }
}

/// The first step of storing `new` in place of `prev`. The answer of the system
/// to [`autostart_request`] is `sync`; it does not matter where there was no
/// request.
pub fn store_settings(prev: &Settings, new: &Settings, sync: Result<(), String>) -> (pending:
    PendingStore)
    ensures
        pending@.effective == effective(prev@, new@, outcome_view(sync)),
        pending@.autostart_error == sync_failure(prev@, new@, outcome_view(sync)),
{
    let mut effective = new.clone();
    let autostart_error: Option<String> = if new.autostart != prev.autostart {
        match sync {
            Ok(()) => None,
            Err(e) => {
                effective.autostart = prev.autostart;
                Some(e)
            },
        }
    } else {
        None
    };
    PendingStore { effective, autostart_error }
}

/// What a store comes to.
#[derive(Debug)]
pub struct Stored {
    /// The settings in force from now on.
    pub in_force: Settings,
    /// Whether they are to be applied to the running app.
    pub apply: bool,
    /// Whether the windows are to be rebuilt.
    pub rebuild: bool,
    /// The answer to whoever asked for the store.
    pub reply: Result<Settings, String>,
}

/// The model of [`Stored`].
#[verifier::ext_equal]
pub struct StoredView {
    /// The settings in force from now on.
    pub in_force: SettingsView,
    /// Whether they are to be applied.
    pub apply: bool,
    /// Whether the windows are to be rebuilt.
    pub rebuild: bool,
    /// The answer.
    pub reply: Result<SettingsView, Seq<char>>,
}

impl View for Stored {
    type V = StoredView;

    open spec fn view(&self) -> StoredView {
        StoredView {
            in_force: self.in_force@,
            apply: self.apply,
            rebuild: self.rebuild,
            reply: match self.reply {
                Ok(s) => Ok(s@),
                Err(e) => Err(e@),
            },
        }
    }
}

/// What the store of `pending` in place of `prev` comes to, once writing it to
/// disk has succeeded or failed.
pub open spec fn store_outcome(
    platform: Platform,
    prev: SettingsView,
    pending: PendingStoreView,
    saved: Result<(), Seq<char>>,
) -> StoredView {
    match saved {
        Err(e) => StoredView { in_force: prev, apply: false, rebuild: false, reply: Err(e) },
        Ok(()) => StoredView {
            in_force: pending.effective,
            apply: true,
            rebuild: rebuild_needed(platform, prev.theme, pending.effective.theme),
            reply: match pending.autostart_error {
                Some(e) => Err(e),
                None => Ok(pending.effective),
            },
        },
    }
}

/// The last step of storing settings, once writing them to disk has succeeded
/// or failed. A failed write leaves everything as it was. An autostart failure
/// is reported after the rest has been stored.
pub fn finish_store(
    platform: Platform,
    prev: &Settings,
    pending: PendingStore,
    saved: Result<(), String>,
) -> (stored: Stored)
    ensures
        stored@ == store_outcome(platform, prev@, pending@, outcome_view(saved)),
{
    match saved {
        Err(e) => Stored { in_force: prev.clone(), apply: false, rebuild: false, reply: Err(e) },
        Ok(()) => {
            let rebuild = recreate_on_theme_change(
                platform,
                prev.theme.as_str(),
                pending.effective.theme.as_str(),
            );
            let in_force = pending.effective.clone();
            let reply: Result<Settings, String> = match pending.autostart_error {
                Some(e) => Err(e),
                None => Ok(pending.effective),
            };
            Stored { in_force, apply: true, rebuild, reply }
        },
    }
}

/// What storing `new` in place of `prev` comes to, given the answers of the
/// system and of the disk.
pub open spec fn store(
    platform: Platform,
    prev: SettingsView,
    new: SettingsView,
    sync: Result<(), Seq<char>>,
    saved: Result<(), Seq<char>>,
) -> StoredView {
    store_outcome(
        platform,
        prev,
        PendingStoreView {
            effective: effective(prev, new, sync),
            autostart_error: sync_failure(prev, new, sync),
        },
        saved,
    )
}

/// An autostart preference that the system rejected is never in force; every
/// other preference is stored all the same, and the failure is reported.
pub proof fn rejected_autostart_is_not_stored(
    platform: Platform,
    prev: SettingsView,
    new: SettingsView,
    reason: Seq<char>,
)
    requires
        prev.autostart != new.autostart,
    ensures
        ({
            let stored = store(platform, prev, new, Err(reason), Ok(()));
            &&& stored.in_force == SettingsView { autostart: prev.autostart, ..new }
            &&& stored.apply
            &&& stored.reply == Err::<SettingsView, Seq<char>>(reason)
        }),
{
}

/// Where neither the system nor the disk objects, what was asked for is in
/// force and is what is answered; in particular a reset brings the defaults.
pub proof fn accepted_settings_are_stored(
    platform: Platform,
    prev: SettingsView,
    new: SettingsView,
)
    ensures
        store(platform, prev, new, Ok(()), Ok(())).in_force == new,
        store(platform, prev, new, Ok(()), Ok(())).apply,
        store(platform, prev, new, Ok(()), Ok(())).reply == Ok::<SettingsView, Seq<char>>(new),
{
}

/// A failed write changes nothing and is reported.
pub proof fn failed_write_changes_nothing(
    platform: Platform,
    prev: SettingsView,
    new: SettingsView,
    sync: Result<(), Seq<char>>,
    reason: Seq<char>,
)
    ensures
        ({
            let stored = store(platform, prev, new, sync, Err(reason));
            &&& stored.in_force == prev
            &&& !stored.apply
            &&& !stored.rebuild
            &&& stored.reply == Err::<SettingsView, Seq<char>>(reason)
        }),
{
}

/// What is in force is what was answered, unless a failure was answered.
pub proof fn reply_tells_what_is_in_force(
    platform: Platform,
    prev: SettingsView,
    new: SettingsView,
    sync: Result<(), Seq<char>>,
    saved: Result<(), Seq<char>>,
)
    ensures
        store(platform, prev, new, sync, saved).reply matches Ok(answered) ==> answered == store(
            platform,
            prev,
            new,
            sync,
            saved,
        ).in_force,
{
}

// ---------------------------------------------------------------------------
// Changes from the menu
// ---------------------------------------------------------------------------

/// A theme that can be chosen from the menu.
#[derive(Clone, Copy, PartialEq, Eq, Structural, Debug)]
pub enum ThemeChoice {
    /// Follow the system.
    System,
    /// Always light.
    Light,
    /// Always dark.
    Dark,
}

/// A change of the settings that can be made from the menu.
#[derive(Clone, Copy, PartialEq, Eq, Structural, Debug)]
pub enum SettingsChange {
    /// Choose a theme.
    Theme(ThemeChoice),
    /// Show names and avatars if they are hidden, and the other way round.
    ToggleHideNames,
    /// Keep windows on top if they are not, and the other way round.
    ToggleAlwaysOnTop,
}

/// How a theme is written in the settings.
pub open spec fn theme_name(choice: ThemeChoice) -> Seq<char> {
    match choice {
        ThemeChoice::System => "system"@,
        ThemeChoice::Light => "light"@,
        ThemeChoice::Dark => "dark"@,
    }
}

/// `s` after `change`.
pub open spec fn changed(s: SettingsView, change: SettingsChange) -> SettingsView {
    match change {
        SettingsChange::Theme(choice) => SettingsView { theme: theme_name(choice), ..s },
        SettingsChange::ToggleHideNames => SettingsView {
            hide_names_avatars: !s.hide_names_avatars,
            ..s
        },
        SettingsChange::ToggleAlwaysOnTop => SettingsView {
            always_on_top: !s.always_on_top,
            ..s
        },
    }
}

/// Makes a change from the menu. Returns whether it needs the windows to be
/// rebuilt.
pub fn mutate_settings(platform: Platform, s: &mut Settings, change: SettingsChange) -> (rebuild:
    bool)
    ensures
        final(s)@ == changed(old(s)@, change),
        rebuild == rebuild_needed(platform, old(s)@.theme, final(s)@.theme),
{
    let prev_theme = s.theme.clone();
    match change {
        SettingsChange::Theme(choice) => {
            s.theme =
            match choice {
                ThemeChoice::System => "system".to_string(),
                ThemeChoice::Light => "light".to_string(),
                ThemeChoice::Dark => "dark".to_string(),
            };
        },
        SettingsChange::ToggleHideNames => {
            s.hide_names_avatars = !s.hide_names_avatars;
        },
        SettingsChange::ToggleAlwaysOnTop => {
            s.always_on_top = !s.always_on_top;
        },
    }
    recreate_on_theme_change(platform, prev_theme.as_str(), s.theme.as_str())
}

/// Toggling twice brings the settings back.
pub proof fn toggles_undo_themselves(s: SettingsView, change: SettingsChange)
    requires
        change == SettingsChange::ToggleHideNames || change == SettingsChange::ToggleAlwaysOnTop,
    ensures
        changed(changed(s, change), change) == s,
{
}

/// The last theme chosen wins.
pub proof fn last_theme_wins(s: SettingsView, first: ThemeChoice, second: ThemeChoice)
    ensures
        changed(changed(s, SettingsChange::Theme(first)), SettingsChange::Theme(second)) == changed(
            s,
            SettingsChange::Theme(second),
        ),
{
}

/// No change from the menu touches the autostart registration.
pub proof fn menu_changes_keep_autostart(s: SettingsView, change: SettingsChange)
    ensures
        autostart_wanted(s, changed(s, change)) is None,
{
}

// ---------------------------------------------------------------------------
// Stores and changes, field by field
// ---------------------------------------------------------------------------

/// A tray icon is wanted exactly where the user asked for one or the app runs in
/// the menu bar alone.
pub proof fn tray_is_wanted_when(s: SettingsView)
    ensures
        tray_wanted(s) <==> s.show_tray || s.menu_bar_only,
{
}

/// The system is asked about autostart exactly where that preference changes,
/// and for what is wanted.
pub proof fn autostart_is_asked_for_when_it_changes(prev: SettingsView, new: SettingsView)
    ensures
        prev.autostart == new.autostart ==> autostart_wanted(prev, new) is None,
        prev.autostart != new.autostart ==> autostart_wanted(prev, new) == Some(new.autostart),
{
}

/// Where autostart stays as it is, its registration has no say: what was asked
/// for is in force and is answered.
pub proof fn unchanged_autostart_cannot_fail(
    platform: Platform,
    prev: SettingsView,
    new: SettingsView,
    sync: Result<(), Seq<char>>,
)
    requires
        prev.autostart == new.autostart,
    ensures
        ({
            let stored = store(platform, prev, new, sync, Ok(()));
            &&& stored.in_force == new
            &&& stored.apply
            &&& stored.reply == Ok::<SettingsView, Seq<char>>(new)
        }),
{
}

/// Every preference but autostart is in force as it was asked for, whatever the
/// system says about autostart, once the settings are written; autostart is what
/// was asked for or what it was.
pub proof fn all_but_autostart_is_stored(
    platform: Platform,
    prev: SettingsView,
    new: SettingsView,
    sync: Result<(), Seq<char>>,
)
    ensures
        ({
            let stored = store(platform, prev, new, sync, Ok(()));
            &&& stored.in_force == SettingsView { autostart: stored.in_force.autostart, ..new }
            &&& stored.in_force.autostart == (if sync is Ok {
                new.autostart
            } else {
                prev.autostart
            })
            &&& stored.apply
        }),
{
}

/// A store rebuilds the windows exactly where it changes the theme, on macOS.
pub proof fn stores_rebuild_for_a_new_theme(
    platform: Platform,
    prev: SettingsView,
    new: SettingsView,
    sync: Result<(), Seq<char>>,
)
    ensures
        store(platform, prev, new, sync, Ok(())).rebuild <==> platform == Platform::Macos
            && prev.theme != new.theme,
        forall|a: Seq<char>, b: Seq<char>| #[trigger] rebuild_needed(platform, a, b) <==> platform
            == Platform::Macos && a != b,
{
}

/// Choosing a theme from the menu changes the theme to that word, and nothing
/// else.
pub proof fn choosing_a_theme_sets_its_word(s: SettingsView, choice: ThemeChoice)
    ensures
        ({
            let after = changed(s, SettingsChange::Theme(choice));
            &&& after == SettingsView { theme: after.theme, ..s }
            &&& choice == ThemeChoice::System ==> after.theme == "system"@
            &&& choice == ThemeChoice::Light ==> after.theme == "light"@
            &&& choice == ThemeChoice::Dark ==> after.theme == "dark"@
        }),
{
}

/// Each toggle of the menu turns its own preference round, and nothing else.
pub proof fn toggles_turn_one_preference(s: SettingsView)
    ensures
        changed(s, SettingsChange::ToggleHideNames) == (SettingsView {
            hide_names_avatars: !s.hide_names_avatars,
            ..s
        }),
        changed(s, SettingsChange::ToggleAlwaysOnTop) == (SettingsView {
            always_on_top: !s.always_on_top,
            ..s
        }),
{
}

} // verus!
