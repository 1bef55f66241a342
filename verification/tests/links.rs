use carrier::download::{download_name, filename_from_url, is_allowed_source, raw_filename};
use carrier::link::{
    accept_target, blob_target, decide_navigation, is_auth_url, is_fetchable_media_host,
    is_google_owned_host, is_internal, is_internal_page, navigate, tracking_target,
    unwrap_tracking, Link, Navigation,
};

fn u(s: &str) -> Link {
    Link::parse(s).unwrap()
}

#[test]
fn fetchable_media_host_is_an_https_fb_allowlist() {
    assert!(is_fetchable_media_host(&u(
        "https://scontent.fbcdn.net/v/x.jpg"
    )));
    assert!(is_fetchable_media_host(&u(
        "https://video.xx.fbcdn.net/x.mp4"
    )));
    assert!(is_fetchable_media_host(&u("https://www.facebook.com/x")));
    // wrong scheme, arbitrary hosts, and IPs are all rejected
    assert!(!is_fetchable_media_host(&u(
        "http://scontent.fbcdn.net/x.jpg"
    ))); // not https
    assert!(!is_fetchable_media_host(&u("https://example.com/x.jpg")));
    assert!(!is_fetchable_media_host(&u("https://evil-fbcdn.net/x"))); // suffix trick
    assert!(!is_fetchable_media_host(&u("https://127.0.0.1/x")));
    assert!(!is_fetchable_media_host(&u("https://localhost/x")));
}

#[test]
fn internal_allows_messenger_blocks_dangerous() {
    assert!(is_internal(&u("https://www.facebook.com/messages")));
    assert!(is_internal(&u("https://web.facebook.com/x")));
    assert!(is_internal(&u("https://accounts.google.com/o/oauth2/auth")));
    assert!(is_internal(&u("about:blank")));
    assert!(!is_internal(&u("https://example.com/")));
    assert!(!is_internal(&u("data:text/html,<script>1</script>")));
    assert!(!is_internal(&u("javascript:alert(1)")));
}

#[test]
fn auth_is_dedicated_hosts_only() {
    assert!(is_auth_url(&u("https://accounts.google.com/anything")));
    assert!(is_auth_url(&u("https://appleid.apple.com/auth/authorize")));
    assert!(is_auth_url(&u(
        "https://login.microsoftonline.com/common/oauth2"
    )));
    assert!(is_auth_url(&u("https://accounts.google.com/o/oauth2/auth")));
    // Google SSO federates across YouTube, country-coded domains and other
    // Google products mid-flow — sign-in subdomains and /accounts/ cookie sync.
    assert!(is_auth_url(&u(
        "https://accounts.youtube.com/accounts/CheckConnection?pmpo=https%3A%2F%2Faccounts.google.com"
    )));
    assert!(is_auth_url(&u(
        "https://accounts.google.no/accounts/SetSID"
    )));
    assert!(is_auth_url(&u(
        "https://accounts.google.co.uk/ServiceLogin"
    )));
    assert!(is_auth_url(&u(
        "https://myaccount.google.com/accounts/SetOSID"
    )));
    // code hosts and arbitrary /oauth paths are external, not in-app auth
    assert!(!is_auth_url(&u("https://github.com/login/oauth/authorize")));
    assert!(!is_auth_url(&u("https://github.com/user/repo")));
    assert!(!is_auth_url(&u("https://example.com/oauth/authorize")));
    // Ordinary Google/YouTube content stays external: Google-owned but neither
    // an `accounts.` subdomain nor an `/accounts/` cookie-sync path.
    assert!(!is_auth_url(&u("https://www.youtube.com/watch?v=abc")));
    assert!(!is_auth_url(&u("https://www.google.com/search?q=x")));
    assert!(!is_auth_url(&u("https://mail.google.com/mail/u/0")));
    // Lookalike / invalid Google TLDs don't match.
    assert!(!is_auth_url(&u("https://accounts.google.evil.com/SetSID")));
    assert!(!is_auth_url(&u("https://accounts.google.example/SetSID")));
    assert!(!is_auth_url(&u("https://accounts.googleX.com/SetSID")));
}

#[test]
fn tracking_redirect_is_unwrapped() {
    let url = u("https://l.facebook.com/l.php?u=https%3A%2F%2Fexample.com%2Fa&h=AT0");
    assert_eq!(
        unwrap_tracking(&url).as_deref(),
        Some("https://example.com/a")
    );
    assert_eq!(
        unwrap_tracking(&u("https://www.facebook.com/messages")),
        None
    );
    // A tracking redirect whose `u=` target is a non-HTTP(S) scheme must not
    // be unwrapped (defense-in-depth against javascript:/file:/data:).
    assert_eq!(
        unwrap_tracking(&u(
            "https://l.facebook.com/l.php?u=javascript%3Aalert%281%29&h=AT0"
        )),
        None
    );
    assert_eq!(
        unwrap_tracking(&u(
            "https://l.facebook.com/l.php?u=file%3A%2F%2F%2Fetc%2Fpasswd"
        )),
        None
    );
}

#[test]
fn filename_keeps_real_extension() {
    assert_eq!(
        filename_from_url(&u("https://x.com/a/video.mp4?dl=1")),
        "video.mp4"
    );
    assert_eq!(filename_from_url(&u("https://x.com/")), "download");
}

#[test]
fn links_are_taken_apart() {
    let link = u("HTTPS://WWW.Example.com:8443/a b/\u{e9}?x=1+2&u=%2Fy&u=z#frag");
    assert_eq!(link.href, "https://www.example.com:8443/a%20b/%C3%A9?x=1+2&u=%2Fy&u=z#frag");
    assert_eq!(link.scheme, "https");
    assert_eq!(link.host.as_deref(), Some("www.example.com"));
    assert_eq!(link.path, "/a%20b/%C3%A9");
    let pairs: Vec<(&str, &str)> =
        link.query.iter().map(|(k, v)| (k.as_str(), v.as_str())).collect();
    assert_eq!(pairs, vec![("x", "1 2"), ("u", "/y"), ("u", "z")]);
    assert!(link.is_web());
    assert_eq!(link.bare_host().unwrap().iter().collect::<String>(), "example.com");

    let plain = u("mailto:a@b.c");
    assert_eq!(plain.host, None);
    assert_eq!(plain.bare_host(), None);
    assert_eq!(plain.path, "a@b.c");
    assert!(!plain.is_web());

    assert!(Link::parse("no url").is_none());
    assert!(Link::parse("https://").is_none());
    assert!(Link::parse("").is_none());
}

#[test]
fn google_hosts() {
    for host in [
        "youtube.com",
        "m.youtube.com",
        "google.com",
        "accounts.google.co.uk",
        "google.google.no",
        "google.evil.google.de",
    ] {
        assert!(is_google_owned_host(host), "{host}");
    }
    for host in [
        "",
        "google.",
        "google",
        "evilgoogle.com",
        "notyoutube.com",
        "youtube.com.evil",
        "google.info",
        "google.c",
        "google.co.uk.no",
        "google.c0m",
        "google.com.",
        "google..com",
        "google.com.evil.org",
    ] {
        assert!(!is_google_owned_host(host), "{host}");
    }
}

#[test]
fn sign_in_hosts_and_their_subdomains() {
    assert!(is_auth_url(&u("https://eu.login.microsoftonline.com/")));
    assert!(!is_auth_url(&u("https://evillogin.microsoftonline.com/")));
    assert!(!is_auth_url(&u("https://login.microsoftonline.com.evil.com/")));
    assert!(!is_auth_url(&u("mailto:accounts.google.com")));
}

#[test]
fn blob_links_are_judged_by_what_is_inside() {
    assert!(is_internal(&u("blob:https://www.facebook.com/1234")));
    assert!(!is_internal(&u("blob:https://example.com/1234")));
    assert!(is_internal(&u("blob:blob:https://www.messenger.com/1234")));
    assert!(!is_internal(&u("blob:blob:https://example.com/1234")));
    assert!(!is_internal(&u("blob:not a url")));
    assert!(is_internal(&u("blob:about:blank")));
    assert_eq!(
        blob_target(&u("blob:https://www.facebook.com/1234")).as_deref(),
        Some("https://www.facebook.com/1234")
    );
    assert_eq!(blob_target(&u("https://www.facebook.com/")), None);
}

#[test]
fn internal_pages_are_whole_domains() {
    for url in [
        "https://facebook.com/",
        "http://www.messenger.com/t/1",
        "https://scontent.xx.fbcdn.net/a.jpg",
        "https://lookaside.fbsbx.com/",
        "https://auth.meta.com/",
        "https://auth.oculus.com/",
    ] {
        assert!(is_internal_page(&u(url)), "{url}");
    }
    for url in [
        "https://myfacebook.com/",
        "https://facebook.com.evil.org/",
        "https://www.notmeta.com/",
        "ftp://www.facebook.com/",
        "file:///etc/passwd",
    ] {
        assert!(!is_internal_page(&u(url)), "{url}");
    }
}

#[test]
fn every_form_of_tracking_redirect() {
    let target = Some("https://example.com/");
    for url in [
        "https://l.facebook.com/l.php?u=https%3A%2F%2Fexample.com%2F",
        "https://lm.facebook.com/l.php?u=https%3A%2F%2Fexample.com%2F",
        "https://www.l.facebook.com/?u=https%3A%2F%2Fexample.com%2F",
        "https://facebook.com/l.php?u=https%3A%2F%2Fexample.com%2F",
        "https://www.facebook.com/l.php?h=1&u=https%3A%2F%2Fexample.com%2F&u=x",
    ] {
        assert_eq!(unwrap_tracking(&u(url)).as_deref(), target, "{url}");
    }
    for url in [
        "https://www.facebook.com/other.php?u=https%3A%2F%2Fexample.com%2F",
        "https://x.facebook.com/l.php?u=https%3A%2F%2Fexample.com%2F",
        "https://l.facebook.com/l.php?v=https%3A%2F%2Fexample.com%2F",
        "https://l.facebook.com/l.php?u=",
        "https://l.facebook.com/l.php?u=relative%2Fpath",
        "mailto:l.facebook.com",
    ] {
        assert_eq!(unwrap_tracking(&u(url)), None, "{url}");
    }
    // Only the first target counts.
    let two = u("https://l.facebook.com/l.php?u=javascript%3A1&u=https%3A%2F%2Fexample.com%2F");
    assert_eq!(tracking_target(&two).as_deref(), Some("javascript:1"));
    assert_eq!(unwrap_tracking(&two), None);
}

#[test]
fn targets_are_accepted_by_their_scheme() {
    let target = || String::from("t");
    assert_eq!(accept_target(target(), &Link::parse("http://a.b/")).as_deref(), Some("t"));
    assert_eq!(accept_target(target(), &Link::parse("https://a.b/")).as_deref(), Some("t"));
    assert_eq!(accept_target(target(), &Link::parse("ftp://a.b/")), None);
    assert_eq!(accept_target(target(), &None), None);
}

fn opened(step: Navigation) -> String {
    match step {
        Navigation::OpenInBrowser(url) => url,
        other => panic!("expected the browser, got {other:?}"),
    }
}

#[test]
fn navigation_goes_where_it_belongs() {
    assert!(matches!(navigate(&u("https://www.facebook.com/messages")), Navigation::Stay));
    assert!(matches!(navigate(&u("about:blank")), Navigation::Stay));
    assert!(matches!(navigate(&u("https://accounts.google.com/")), Navigation::Stay));
    assert_eq!(opened(navigate(&u("https://example.com/a b"))), "https://example.com/a%20b");
    assert_eq!(
        opened(navigate(&u("https://l.facebook.com/l.php?u=https%3A%2F%2Fexample.com%2Fa"))),
        "https://example.com/a"
    );
    // A redirect to anything but a web link is no redirect: it stays a page of
    // Facebook's.
    assert!(matches!(
        navigate(&u("https://l.facebook.com/l.php?u=javascript%3Aalert%281%29")),
        Navigation::Stay
    ));
    for url in ["javascript:alert(1)", "data:text/html,x", "file:///etc/passwd", "custom:x"] {
        assert!(matches!(navigate(&u(url)), Navigation::Block), "{url}");
    }
}

#[test]
fn navigation_is_decided_in_order() {
    let web = u("https://example.com/");
    let other = u("custom:x");
    let target = || Some(String::from("https://t/"));
    assert_eq!(opened(decide_navigation(&web, target(), true)), "https://t/");
    assert_eq!(opened(decide_navigation(&other, target(), false)), "https://t/");
    assert!(matches!(decide_navigation(&other, None, true), Navigation::Stay));
    assert_eq!(opened(decide_navigation(&web, None, false)), "https://example.com/");
    assert!(matches!(decide_navigation(&other, None, false), Navigation::Block));
}

#[test]
fn file_names_from_urls() {
    assert_eq!(filename_from_url(&u("https://x.com/a/%C3%A9t%C3%A9.png")), "\u{e9}t\u{e9}.png");
    assert_eq!(filename_from_url(&u("https://x.com/a/..%2F..%2Fetc%2Fpasswd")), "_.._etc_passwd");
    assert_eq!(filename_from_url(&u("https://x.com/a/%FF")), "\u{fffd}");
    assert_eq!(filename_from_url(&u("https://x.com/dir/")), "download");
    assert_eq!(filename_from_url(&u("data:image/png;base64,AAAA")), "download");
    assert_eq!(raw_filename(&u("https://x.com/a%20b")), "a%20b");
}

#[test]
fn downloads_come_from_allowed_sources_only() {
    assert!(is_allowed_source(&u("blob:https://example.com/1")));
    assert!(is_allowed_source(&u("data:text/plain,x")));
    assert!(is_allowed_source(&u("https://scontent.fbcdn.net/v/x.jpg")));
    assert!(!is_allowed_source(&u("http://scontent.fbcdn.net/v/x.jpg")));
    assert!(!is_allowed_source(&u("https://example.com/x.jpg")));
    assert_eq!(download_name(&u("https://example.com/x.jpg"), Some("y.jpg".to_string())), None);
}

#[test]
fn downloads_prefer_the_suggested_name() {
    let media = u("https://scontent.fbcdn.net/v/x.jpg?a=b");
    let name = |suggested: Option<&str>| download_name(&media, suggested.map(str::to_string));
    assert_eq!(name(Some("photo.png")).as_deref(), Some("photo.png"));
    assert_eq!(name(None).as_deref(), Some("x.jpg"));
    assert_eq!(name(Some("")).as_deref(), Some("x.jpg"));
    assert_eq!(name(Some("../up.png")).as_deref(), Some("_up.png"));
    // An executable is refused under any disguise of case and padding.
    assert_eq!(name(Some("setup.EXE")), None);
    assert_eq!(name(Some(" setup.exe. ")), None);
    let program = u("https://scontent.fbcdn.net/v/run.sh");
    assert_eq!(download_name(&program, None), None);
    assert_eq!(download_name(&program, Some("a.txt".to_string())).as_deref(), Some("a.txt"));
}
