//! What differs between the platforms the app runs on.

use vstd::prelude::*;

verus! {

/// The platform the app runs on.
#[derive(Clone, Copy, PartialEq, Eq, Structural, Debug)]
pub enum Platform {
    /// macOS.
    Macos,
    /// Windows.
    Windows,
    /// Linux.
    Linux,
}

/// The page the app wraps.
pub const HOME_URL: &'static str = "https://www.facebook.com/messages";

/// The identifier the app is installed under.
pub const APP_IDENTIFIER: &'static str = "io.github.kristofferr.carrier";

/// The user agent sent on `platform`.
pub open spec fn agent(platform: Platform) -> &'static str {
    match platform {
        Platform::Macos =>
            "Mozilla/5.0 (Macintosh; Intel Mac OS X 10_15_7) AppleWebKit/605.1.15 (KHTML, like Gecko) Version/17.4 Safari/605.1.15",
        Platform::Windows =>
            "Mozilla/5.0 (Windows NT 10.0; Win64; x64) AppleWebKit/537.36 (KHTML, like Gecko) Chrome/124.0.0.0 Safari/537.36",
        Platform::Linux =>
            "Mozilla/5.0 (X11; Linux x86_64) AppleWebKit/537.36 (KHTML, like Gecko) Chrome/124.0.0.0 Safari/537.36",
    }
}

/// A modern browser's user agent, so that Facebook serves the full Messenger web
/// app.
pub fn user_agent(platform: Platform) -> (text: &'static str)
    ensures
        text@ == agent(platform)@,
{
    match platform {
        Platform::Macos =>
            "Mozilla/5.0 (Macintosh; Intel Mac OS X 10_15_7) AppleWebKit/605.1.15 (KHTML, like Gecko) Version/17.4 Safari/605.1.15",
        Platform::Windows =>
            "Mozilla/5.0 (Windows NT 10.0; Win64; x64) AppleWebKit/537.36 (KHTML, like Gecko) Chrome/124.0.0.0 Safari/537.36",
        Platform::Linux =>
            "Mozilla/5.0 (X11; Linux x86_64) AppleWebKit/537.36 (KHTML, like Gecko) Chrome/124.0.0.0 Safari/537.36",
    }
}

/// The title of the app. A debug build says so, lest it be mistaken for an
/// installed release.
pub open spec fn title(debug: bool) -> Seq<char> {
    if debug {
        "Carrier (debug)"@
    } else {
        "Carrier"@
    }
}

/// The title of the app. A debug build says so, lest it be mistaken for an
/// installed release.
pub fn app_title(debug: bool) -> (text: &'static str)
    ensures
        text@ == title(debug),
{
    if debug {
        "Carrier (debug)"
    } else {
        "Carrier"
    }
}

} // verus!
