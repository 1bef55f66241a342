//! What callers can rely on: laws of the results of calls, and of calls that
//! follow each other.

use vstd::prelude::*;

use crate::apply::{
    apply_settings, build_app_window, every_messenger_page_is_handed_the_settings,
    show_settings_window, windows_follow_the_settings, DialogSetup, WindowSetup, WindowUpdate,
};
use crate::download::{
    a_plain_suggestion_is_the_name, download_name, filename_from_url, own_content,
    own_content_is_accepted, the_last_segment_is_the_name,
};
use crate::encoding::base64_text;
use crate::filename::{
    a_plain_name_comes_through, candidate, executables_by_extension, incomplete_escapes_are_kept,
    is_unsafe_download, numbers_are_tried_in_order, percent_decode, percent_decoded, reserved,
    runs, sanitize_filename, sanitized, solid, unique_path, unsafe_name, without_escapes, PathStep,
};
use crate::location::{
    avatar_cache_dir, avatar_dir_name, avatar_dirs_are_recognised_and_private, avatar_file,
    avatar_files_are_distinct, clear_request_done, clear_webview_data_marker, is_avatar_dir,
    settings_file, Base, Location,
};
use crate::link::{
    auth, in_domain, is_auth_url, is_fetchable_media_host, is_internal,
    media_comes_from_four_domains, messenger_host, messenger_pages_load_in_the_app, navigate,
    only_messenger_and_sign_in_are_internal, other_schemes, redirect_address,
    redirect_opens_its_target_unabridged, sign_in_stays_in_the_app,
    text_view, the_rest_of_the_web_opens_in_the_browser, unwrap_tracking, url_parts, Link, Navigation,
};
use crate::menu::{actions_belong_to_their_ids, handle_menu_event, MenuAction, PageCommand};
use crate::notify::{
    a_blank_sender_is_replaced, a_named_sender_is_shown, a_reported_count_is_shown, avatar_image,
    avatar_is_unique, avatar_png, carries, compose_notification, every_small_png_is_shown,
    is_activation, pictures_by_their_contents, tray_tooltip, Notification, NotifyMsg,
};
use crate::number::decimal;
use crate::platform::{agent, Platform};
use crate::script::{click_script, init_script, settings_script, start_script, Assets};
use crate::settings::{
    autostart_error, autostart_request, finish_store, outcome_view, store, store_settings,
    wants_tray, PendingStore, Settings, SettingsView, Stored,
};
use crate::text::{a_part_is_found_anywhere, in_small_letters, occurs, white_space};
use crate::theme::{
    is_dark, is_dark_appearance, splash_background, theme_for, Color, SystemMode, Theme,
};
use crate::update::{
    after_check, after_install, is_announced, InstallStep, UpdateCheck, UpdateStep,
};
use crate::window::{
    activation_for, close_action, every_messenger_window_is_rebuilt, focused_messenger,
    rebuild_plan, rebuild_restores_close_handling, rebuilt, starts_hidden, target_window,
    targets_view, tray_action, window_label, window_labels_are_distinct, Activation, CloseAction,
    RebuildTarget, TrayAction, WindowState,
};

verus! {

// ---------------------------------------------------------------------------
// Links
// ---------------------------------------------------------------------------

/// A tracking redirect to a web link ends in the browser, at the whole target.
pub proof fn navigating_a_redirect(link: Link, step: Navigation, target: Option<String>, k: int)
    requires
        call_ensures(navigate, (&link,), step),
        call_ensures(unwrap_tracking, (&link,), target),
        redirect_address(link@),
        0 <= k < link@.query.len(),
        link@.query[k].0 == "u"@,
        forall|j: int| 0 <= j < k ==> (#[trigger] link@.query[j]).0 != "u"@,
        url_parts(link@.query[k].1) matches Some(t) && (t.scheme == "http"@ || t.scheme
            == "https"@),
    ensures
        step matches Navigation::OpenInBrowser(url) && url@ == link@.query[k].1,
        target matches Some(text) && text@ == link@.query[k].1,
{
    redirect_opens_its_target_unabridged(link@, k);
}

/// A web page of Messenger's stays in the app, and so does a sign-in; any other
/// goes to the browser under its own address.
pub proof fn navigating_the_web(link: Link, step: Navigation, internal: bool)
    requires
        call_ensures(navigate, (&link,), step),
        call_ensures(is_internal, (&link,), internal),
        link@.scheme == "http"@ || link@.scheme == "https"@,
    ensures
        internal == (auth(link@) || messenger_host(link@)),
        auth(link@) ==> step is Stay,
        messenger_host(link@) && !redirect_address(link@) ==> step is Stay,
        !messenger_host(link@) && !auth(link@) ==> (step matches Navigation::OpenInBrowser(url)
            && url@ == link@.href),
{
    only_messenger_and_sign_in_are_internal(link@);
    if auth(link@) {
        sign_in_stays_in_the_app(link@);
    } else if !messenger_host(link@) {
        the_rest_of_the_web_opens_in_the_browser(link@);
    }
    if messenger_host(link@) && !redirect_address(link@) {
        messenger_pages_load_in_the_app(link@);
    }
}

/// A link that is no web link, no blob and no redirect opens nothing; only an
/// `about:` page loads.
pub proof fn navigating_elsewhere(link: Link, step: Navigation)
    requires
        call_ensures(navigate, (&link,), step),
        link@.scheme != "http"@,
        link@.scheme != "https"@,
        link@.scheme != "blob"@,
        !redirect_address(link@),
    ensures
        link@.scheme == "about"@ ==> step is Stay,
        link@.scheme != "about"@ ==> step is Block,
{
    other_schemes(link@);
}

/// Whether media may be fetched, and whether a link is a sign-in, is told as the
/// rules have it.
pub proof fn hosts_are_judged(link: Link, media: bool, sign_in: bool)
    requires
        call_ensures(is_fetchable_media_host, (&link,), media),
        call_ensures(is_auth_url, (&link,), sign_in),
    ensures
        media == (link@.scheme == "https"@ && (link@.host matches Some(host) && {
            ||| in_domain(host, "fbcdn.net"@)
            ||| in_domain(host, "fbsbx.com"@)
            ||| in_domain(host, "facebook.com"@)
            ||| in_domain(host, "messenger.com"@)
        })),
        sign_in == auth(link@),
{
    media_comes_from_four_domains(link@);
}

// ---------------------------------------------------------------------------
// Downloads
// ---------------------------------------------------------------------------

/// A harmless suggestion for the page's own content is what the file is called;
/// for anything else there is no download.
pub proof fn downloading_with_a_suggestion(
    link: Link,
    suggested: Option<String>,
    name: Option<String>,
)
    requires
        call_ensures(download_name, (&link, suggested), name),
        suggested is Some,
        suggested->0@.len() > 0,
    ensures
        name is Some <==> own_content(link@) && !unsafe_name(sanitized(suggested->0@)),
        name matches Some(text) ==> text@ == sanitized(suggested->0@),
{
    own_content_is_accepted(link@, suggested->0@);
}

/// A harmless suggestion that is no executable is taken as it is.
pub proof fn downloading_under_a_plain_name(
    link: Link,
    suggested: Option<String>,
    name: Option<String>,
)
    requires
        call_ensures(download_name, (&link, suggested), name),
        suggested is Some,
        own_content(link@),
        suggested->0@.len() > 0,
        solid(suggested->0@[0]),
        solid(suggested->0@.last()),
        forall|i: int| 0 <= i < suggested->0@.len() ==> !reserved(#[trigger] suggested->0@[i]),
        !unsafe_name(suggested->0@),
    ensures
        name matches Some(text) && text@ == suggested->0@,
{
    a_plain_suggestion_is_the_name(link@, suggested->0@);
}

/// A file is called as the last segment of its URL's path says.
pub proof fn naming_a_file_by_its_url(
    link: Link,
    name: String,
    front: Seq<char>,
    segment: Seq<char>,
)
    requires
        call_ensures(filename_from_url, (&link,), name),
        link@.path == front.push('/') + segment,
        link@.path[0] == '/',
        segment.len() > 0,
        forall|i: int| 0 <= i < segment.len() ==> #[trigger] segment[i] != '/',
    ensures
        name@ == sanitized(percent_decoded(segment)),
{
    the_last_segment_is_the_name(link@, front, segment);
}

/// A plain name is neither changed by decoding nor by sanitizing.
pub proof fn plain_names_pass(name: &str, read: String, clean: String)
    requires
        call_ensures(percent_decode, (name,), read),
        call_ensures(sanitize_filename, (name,), clean),
        name@.len() > 0,
        solid(name@[0]),
        solid(name@.last()),
        without_escapes(name@),
        forall|i: int| 0 <= i < name@.len() ==> !reserved(#[trigger] name@[i]),
    ensures
        read@ == name@,
        clean@ == name@,
{
    incomplete_escapes_are_kept(name@);
    a_plain_name_comes_through(name@);
}

/// A name is told to be an executable by its extension alone.
pub proof fn executables_are_told(
    name: &str,
    yes: bool,
    front: Seq<char>,
    tail: Seq<char>,
    small: Seq<char>,
)
    requires
        call_ensures(is_unsafe_download, (name,), yes),
        name@ == front.push('.') + tail,
        forall|i: int| 0 <= i < tail.len() ==> #[trigger] tail[i] != '.',
        in_small_letters(tail, small),
    ensures
        yes == runs(small),
{
    executables_by_extension(front, tail, small);
}

/// A free name is used, and a taken one is followed by the next number.
pub proof fn searching_for_a_name(name: &str, attempt: u64, free: PathStep, taken: PathStep)
    requires
        call_ensures(unique_path, (name, attempt, false), free),
        call_ensures(unique_path, (name, attempt, true), taken),
    ensures
        free matches PathStep::Use(found) && found@ == candidate(name@, attempt as nat),
        attempt < 9999 ==> (taken matches PathStep::Probe(next) && next@ == candidate(
            name@,
            (attempt + 1) as nat,
        )),
        attempt >= 9999 ==> (taken matches PathStep::Use(found) && found@ == name@),
{
    numbers_are_tried_in_order(name@, attempt as nat);
}

// ---------------------------------------------------------------------------
// Settings and windows
// ---------------------------------------------------------------------------

/// The two steps of a store come to one store.
pub proof fn storing_in_two_steps(
    platform: Platform,
    prev: Settings,
    new: Settings,
    sync: Result<(), String>,
    pending: PendingStore,
    saved: Result<(), String>,
    stored: Stored,
)
    requires
        call_ensures(store_settings, (&prev, &new, sync), pending),
        call_ensures(finish_store, (platform, &prev, pending, saved), stored),
    ensures
        stored@ == store(platform, prev@, new@, outcome_view(sync), outcome_view(saved)),
        saved is Err ==> stored.in_force@ == prev@ && !stored.apply && !stored.rebuild,
        saved is Ok ==> stored.apply && stored.in_force@ == (SettingsView {
            autostart: stored.in_force.autostart,
            ..new@
        }),
        saved is Ok && (sync is Ok || prev.autostart == new.autostart) ==> stored.in_force@ == new@
            && (stored.reply matches Ok(answer) && answer@ == new@),
        saved is Ok && sync is Err && prev.autostart != new.autostart ==> stored.in_force.autostart
            == prev.autostart && (stored.reply matches Err(reason) && reason@ == sync->Err_0@),
        saved is Ok ==> stored.rebuild == (platform == Platform::Macos && prev@.theme
            != new@.theme),
{
}

/// The system is asked about autostart where it changes, and a failure is told
/// with its reason.
pub proof fn asking_about_autostart(
    prev: Settings,
    new: Settings,
    request: Option<bool>,
    reason: &str,
    message: String,
)
    requires
        call_ensures(autostart_request, (&prev, &new), request),
        call_ensures(autostart_error, (reason,), message),
    ensures
        request is Some <==> prev.autostart != new.autostart,
        request matches Some(want) ==> want == new.autostart,
        message@ == "Couldn't update Start on System Startup: "@ + reason@,
{
}

/// Any window takes over the look and the place that the settings give, and any
/// page but that of the dialog is handed them.
pub proof fn applying_settings(
    s: Settings,
    system: SystemMode,
    label: &str,
    settings_json: Option<String>,
    update: WindowUpdate,
)
    requires
        call_ensures(apply_settings, (&s, system, label, &settings_json), update),
    ensures
        update.always_on_top == s.always_on_top,
        update.theme == Some(Theme::Dark) <==> s.theme@ == "dark"@,
        update.theme == Some(Theme::Light) <==> s.theme@ == "light"@,
        update.dark == (s.theme@ == "dark"@ || (s.theme@ != "light"@ && system
            == SystemMode::Dark)),
        update.background == (if update.dark {
            Color(24, 25, 26, 255)
        } else {
            Color(255, 255, 255, 255)
        }),
        update.script is Some <==> settings_json is Some && label@ != "settings"@,
        update.script matches Some(script) ==> script@ == "window.__CARRIER_SETTINGS__ = "@
            + settings_json->0@
            + "; try { localStorage.setItem('__carrier_settings', JSON.stringify(window.__CARRIER_SETTINGS__)); } catch (e) {} window.dispatchEvent(new Event('carrier:settings'));"@,
{
    windows_follow_the_settings(s@, system, label@, text_view(settings_json));
    if let Some(json) = settings_json {
        every_messenger_page_is_handed_the_settings(s@, system, label@, json@);
    }
}

/// A new window, and the dialog, look as the settings say.
pub proof fn building_windows(
    platform: Platform,
    debug: bool,
    s: Settings,
    system: SystemMode,
    json: &str,
    assets: Assets,
    setup: WindowSetup,
    dialog: DialogSetup,
    update: WindowUpdate,
)
    requires
        call_ensures(build_app_window, (platform, debug, &s, system, json, &assets), setup),
        call_ensures(show_settings_window, (debug, &s), dialog),
        call_ensures(apply_settings, (&s, system, "main", &None::<String>), update),
    ensures
        setup.url@ == "https://www.facebook.com/messages"@,
        setup.user_agent@ == agent(platform)@,
        setup.script@ == start_script(json@, assets),
        setup.always_on_top == update.always_on_top,
        setup.theme == update.theme,
        setup.background == update.background,
        dialog.always_on_top == setup.always_on_top,
        dialog.theme == setup.theme,
        dialog.title@ == setup.title@ + " Settings"@,
{
}

/// The theme decides what windows look like, and the system where no theme is
/// forced.
pub proof fn looking_dark_or_light(
    s: Settings,
    system: SystemMode,
    theme: Option<Theme>,
    dark: bool,
    color: Color,
)
    requires
        call_ensures(theme_for, (&s,), theme),
        call_ensures(is_dark, (&s, system), dark),
        call_ensures(splash_background, (&s, system), color),
    ensures
        theme == Some(Theme::Dark) ==> dark && s.theme@ == "dark"@,
        theme == Some(Theme::Light) ==> !dark && s.theme@ == "light"@,
        theme is None ==> dark == (system == SystemMode::Dark) && s.theme@ != "dark"@ && s.theme@
            != "light"@,
        color == (if dark {
            Color(24, 25, 26, 255)
        } else {
            Color(255, 255, 255, 255)
        }),
{
}

/// What the tray, the Dock and the close button do hangs on the one preference
/// that each is for, and on whether there is a tray icon.
pub proof fn living_in_the_tray(
    s: Settings,
    has_tray: bool,
    wanted: bool,
    tray: TrayAction,
    close: CloseAction,
    hidden: bool,
    dock: Activation,
)
    requires
        call_ensures(wants_tray, (&s,), wanted),
        call_ensures(tray_action, (&s, has_tray), tray),
        call_ensures(close_action, (&s, has_tray), close),
        call_ensures(starts_hidden, (&s, has_tray), hidden),
        call_ensures(activation_for, (&s, has_tray), dock),
    ensures
        wanted == (s.show_tray || s.menu_bar_only),
        tray == TrayAction::Create <==> wanted && !has_tray,
        tray == TrayAction::ShowMainAndRemove <==> !wanted && has_tray,
        close == CloseAction::HideToTray <==> s.hide_on_close && has_tray,
        hidden <==> s.start_to_tray && has_tray,
        dock == Activation::Accessory <==> s.menu_bar_only && has_tray,
        dock == Activation::RegularAndShowMain <==> s.menu_bar_only && !has_tray,
{
}

/// Different numbers make different labels, all of one form.
pub proof fn labelling_windows(a: u64, b: u64, one: String, other: String)
    requires
        call_ensures(window_label, (a,), one),
        call_ensures(window_label, (b,), other),
    ensures
        one@ == "win-"@ + decimal(a as nat),
        one@ == other@ ==> a == b,
{
    window_labels_are_distinct(a as nat, b as nat);
}

/// A menu item does what it is named after, and an unknown one nothing.
pub proof fn choosing_from_the_menu(id: &str, debug: bool, action: MenuAction)
    requires
        call_ensures(handle_menu_event, (id, debug), action),
    ensures
        action == MenuAction::OpenSettings ==> id@ == "preferences"@,
        action == MenuAction::NewWindow ==> id@ == "new_window"@,
        action == MenuAction::ClearCacheAndRestart ==> id@ == "clear_cache"@,
        action == MenuAction::ToggleMaximized ==> id@ == "maximize"@,
        action == MenuAction::OpenDevtools ==> id@ == "devtools"@ && debug,
        action == MenuAction::Page(PageCommand::Reload) ==> id@ == "reload"@,
        action == MenuAction::Ignore ==> id@ != "preferences"@ && id@ != "new_window"@ && id@
            != "clear_cache"@ && id@ != "maximize"@ && id@ != "reload"@,
{
    actions_belong_to_their_ids(id@, debug);
}

// ---------------------------------------------------------------------------
// Scripts and notifications
// ---------------------------------------------------------------------------

/// Scripts hold what they are given, whole.
pub proof fn writing_scripts(
    json: &str,
    assets: Assets,
    id: u64,
    start: String,
    update: String,
    click: String,
)
    requires
        call_ensures(init_script, (json, &assets), start),
        call_ensures(settings_script, (json,), update),
        call_ensures(click_script, (id,), click),
    ensures
        start@ == start_script(json@, assets),
        update@ == "window.__CARRIER_SETTINGS__ = "@ + json@
            + "; try { localStorage.setItem('__carrier_settings', JSON.stringify(window.__CARRIER_SETTINGS__)); } catch (e) {} window.dispatchEvent(new Event('carrier:settings'));"@,
        click@ == "window.__carrierNotifyClick && window.__carrierNotifyClick("@ + decimal(
            id as nat,
        ) + ");"@,
{
}

/// A notification keeps the handle and the text that the page sent, names the
/// sender wherever there is one, and shows the picture that was sent.
pub proof fn notifying(msg: NotifyMsg, shown: Notification, i: int)
    requires
        call_ensures(compose_notification, (msg,), shown),
    ensures
        shown.id == msg.id,
        shown.body@ == msg.body@,
        0 <= i < msg.title@.len() && !white_space(msg.title@[i]) ==> shown.title@ == msg.title@,
        (forall|j: int| 0 <= j < msg.title@.len() ==> white_space(#[trigger] msg.title@[j]))
            ==> shown.title@ == "Messenger"@,
        shown.image matches Some(png) ==> carries(msg.icon@, png@),
{
    if 0 <= i < msg.title@.len() && !white_space(msg.title@[i]) {
        a_named_sender_is_shown(msg.title@, i);
    }
    if forall|j: int| 0 <= j < msg.title@.len() ==> white_space(#[trigger] msg.title@[j]) {
        a_blank_sender_is_replaced(msg.title@);
    }
}

/// A small PNG file that the page sends is shown, byte for byte.
pub proof fn notifying_with_a_picture(msg: NotifyMsg, shown: Notification, png: Seq<u8>)
    requires
        call_ensures(compose_notification, (msg,), shown),
        msg.icon@ == "data:image/png;base64,"@ + base64_text(png),
        avatar_image(png),
    ensures
        shown.image matches Some(image) && image@ == png,
{
    every_small_png_is_shown(png);
    assert(carries(msg.icon@, png));
    if let Some(image) = shown.image {
        avatar_is_unique(msg.icon@, image@, png);
    }
}

/// What is decoded of a data URL is what was encoded in it.
pub proof fn decoding_a_picture(data_url: &str, png: Option<Vec<u8>>, text: Seq<char>)
    requires
        call_ensures(avatar_png, (data_url,), png),
        data_url@ == "data:image/png;base64,"@ + text,
        text.len() > 0 ==> !white_space(text[0]) && !white_space(text.last()),
    ensures
        png matches Some(bytes) ==> base64_text(bytes@) == text && 8 <= bytes@.len() <= 1048576,
{
    if let Some(bytes) = png {
        pictures_by_their_contents(text, bytes@);
    }
}

/// The count that the page reports stands in the tooltip, and only a dismissal
/// does not open a conversation.
pub proof fn counting_and_clicking(
    app_title: &str,
    report: &str,
    tip: String,
    n: nat,
    action: &str,
    opens: bool,
)
    requires
        call_ensures(tray_tooltip, (app_title, report), tip),
        call_ensures(is_activation, (action,), opens),
        report@ == decimal(n),
        0 < n <= i64::MAX,
    ensures
        tip@ == app_title@ + " — "@ + decimal(n) + " unread"@,
        opens <==> action@ != "__closed"@,
{
    a_reported_count_is_shown(app_title@, n);
}

/// Only an installation that succeeded is followed by a restart, and a failure is
/// told with its reason.
pub proof fn updating(
    check: UpdateCheck,
    step: UpdateStep,
    installed: Result<(), String>,
    next: InstallStep,
)
    requires
        call_ensures(after_check, (check,), step),
        call_ensures(after_install, (installed,), next),
    ensures
        step is Install <==> check is Available,
        check matches UpdateCheck::Failed(reason) ==> step == UpdateStep::Reply(Err(reason)),
        next is Restart <==> installed is Ok,
        installed matches Err(reason) ==> next == InstallStep::Reply(reason),
{
}

// ---------------------------------------------------------------------------
// Windows, places and names
// ---------------------------------------------------------------------------

/// A menu action is for a window that has the focus and is not the dialog; where
/// there is none, it is for the main window, and for none where that is missing.
pub proof fn aiming_a_menu_action(windows: Vec<WindowState>, target: Option<usize>, k: int)
    requires
        call_ensures(target_window, (&windows,), target),
        0 <= k < windows@.len(),
    ensures
        target matches Some(i) ==> i < windows@.len() && windows@[i as int].label@ != "settings"@,
        windows@[k].focused && windows@[k].label@ != "settings"@ ==> (target matches Some(i) && i
            <= k && windows@[i as int].focused),
        windows@[k].label@ == "main"@ ==> target is Some,
        (target matches Some(i) && !windows@[i as int].focused) ==> windows@[target->0 as int].label@
            == "main"@,
{
    window_labels_are_distinct(0, 0);
    assert(focused_messenger(windows@[k]) == (windows@[k].focused && windows@[k].label@
        != "settings"@));
    if let Some(i) = target {
        if windows@[k].focused && windows@[k].label@ != "settings"@ {
            assert(focused_messenger(windows@[k]));
        }
    }
}

/// A rebuild leaves the dialog alone and covers every other window; while one is
/// running there is no other.
pub proof fn planning_a_rebuild(
    labels: Vec<String>,
    plan: Option<Vec<RebuildTarget>>,
    busy: Option<Vec<RebuildTarget>>,
    k: int,
)
    requires
        call_ensures(rebuild_plan, (false, &labels), plan),
        call_ensures(rebuild_plan, (true, &labels), busy),
        0 <= k < labels@.len(),
        labels@[k]@ != "settings"@,
    ensures
        busy is None,
        plan is Some,
        exists|i: int|
            0 <= i < plan->0@.len() && (#[trigger] plan->0@[i]).label@ == labels@[k]@
                && plan->0@[i].handles_close == (labels@[k]@ == "main"@),
{
    every_messenger_window_is_rebuilt(labels@, k);
    let i = choose|i: int|
        0 <= i < rebuilt(labels@).len() && #[trigger] rebuilt(labels@)[i].label == labels@[k]@;
    rebuild_restores_close_handling(labels@, i);
    assert(targets_view(plan->0@)[i] == plan->0@[i]@);
}

/// A request to clear is done with exactly where nothing is left.
pub proof fn clearing(removed: Vec<bool>, done: bool, i: int)
    requires
        call_ensures(clear_request_done, (&removed,), done),
        0 <= i < removed@.len(),
    ensures
        !removed@[i] ==> !done,
        (forall|j: int| 0 <= j < removed@.len() ==> #[trigger] removed@[j]) ==> done,
{
}

/// Every process keeps its avatars in a directory that the sweep finds, and every
/// avatar in a file of its own.
pub proof fn keeping_avatars(
    pid: u32,
    a: u64,
    b: u64,
    dir: Location,
    one: Location,
    other: Location,
    name: &str,
    swept: bool,
)
    requires
        call_ensures(avatar_cache_dir, (pid,), dir),
        call_ensures(avatar_file, (pid, a), one),
        call_ensures(avatar_file, (pid, b), other),
        call_ensures(is_avatar_dir, (name,), swept),
        dir@.parts[0] == name@,
    ensures
        dir@.base == Base::Temporary && dir@.parts.len() == 1,
        one@.base == Base::Temporary && one@.parts == dir@.parts.push(
            decimal(a as nat) + ".png"@,
        ),
        one@ == other@ ==> a == b,
        swept,
{
    avatar_dirs_are_recognised_and_private(pid as nat, pid as nat);
    assert(dir@.parts =~= seq![avatar_dir_name(pid as nat)]);
    if one@ == other@ {
        assert(one@.parts[1] == other@.parts[1]);
        avatar_files_are_distinct(a as nat, b as nat);
    }
}

/// The settings and the request to clear are kept side by side, in the app's own
/// directory.
pub proof fn keeping_settings(settings: Location, marker: Location)
    requires
        call_ensures(settings_file, (), settings),
        call_ensures(clear_webview_data_marker, (), marker),
    ensures
        settings@.base == Base::AppConfig && settings@.parts == seq!["settings.json"@],
        marker@.base == Base::AppConfig && marker@.parts == seq![
            ".clear-webview-data-on-next-launch"@,
        ],
{
    assert(settings@.parts =~= seq!["settings.json"@]);
    assert(marker@.parts =~= seq![".clear-webview-data-on-next-launch"@]);
}

/// An appearance is dark exactly where its name has "Dark" in it, at any place.
pub proof fn naming_appearances(
    name: &str,
    yes: bool,
    front: Seq<char>,
    back: Seq<char>,
)
    requires
        call_ensures(is_dark_appearance, (name,), yes),
    ensures
        name@ == front + "Dark"@ + back ==> yes,
        yes ==> occurs(name@, "Dark"@),
{
    a_part_is_found_anywhere(front, "Dark"@, back);
}

/// Only the good news that nothing is to be done is announced.
pub proof fn announcing(reply: Result<String, String>, yes: bool)
    requires
        call_ensures(is_announced, (&reply,), yes),
    ensures
        reply is Err ==> !yes,
        reply matches Ok(text) ==> yes == (text@ == "up-to-date"@),
{
}

} // verus!
