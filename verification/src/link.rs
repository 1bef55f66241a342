//! Links: which stay inside the app, which go to the browser, and what a
//! tracking redirect really points at.

use vstd::prelude::*;

use crate::text::{
    chars_of, ends_with, has_at, has_prefix, has_suffix, in_small_letters, last_position,
    lemma_last_position, lower, lower_char, lower_chars, occurs_at, parts_view, same_chars, same_text, slice_chars,
    small_letters_are_lower, split, split_chars, starts_with,
    strip_prefix, text_of, without_prefix,
};

verus! {

// ---------------------------------------------------------------------------
// Parsed links
// ---------------------------------------------------------------------------

/// A parsed URL, taken apart into what the rules for links read.
#[derive(Debug)]
pub struct Link {
    /// The whole URL, serialized.
    pub href: String,
    /// The scheme, in small letters and without the colon.
    pub scheme: String,
    /// The host, if the URL has one.
    pub host: Option<String>,
    /// The path, percent-encoded.
    pub path: String,
    /// The query, decoded as a form: names and values in order.
    pub query: Vec<(String, String)>,
}

/// The model of a [`Link`].
#[verifier::ext_equal]
pub struct LinkView {
    /// The whole URL, serialized.
    pub href: Seq<char>,
    /// The scheme.
    pub scheme: Seq<char>,
    /// The host, if the URL has one.
    pub host: Option<Seq<char>>,
    /// The path, percent-encoded.
    pub path: Seq<char>,
    /// The query, decoded as a form.
    pub query: Seq<(Seq<char>, Seq<char>)>,
}

impl View for Link {
    type V = LinkView;

    open spec fn view(&self) -> LinkView {
        LinkView {
            href: self.href@,
            scheme: self.scheme@,
            host: match self.host {
                Some(host) => Some(host@),
                None => None,
            },
            path: self.path@,
            query: Seq::new(
                self.query@.len(),
                |i: int| (self.query@[i].0@, self.query@[i].1@),
            ),
        }
    }
}

/// The parts of the URL that `url::Url::parse` reads from `text`, or `None`
/// where it reports an error.
pub uninterp spec fn url_parts(text: Seq<char>) -> Option<LinkView>;

/// Calls `url::Url::parse` and takes the URL apart with its `as_str`, `scheme`,
/// `host_str`, `path` and `query_pairs`. Claimed of them: the parts depend on
/// the text alone.
#[verifier::external_body]
fn parse_url(text: &str) -> (link: Option<Link>)
    ensures
        match link {
            Some(l) => url_parts(text@) == Some(l@),
            None => url_parts(text@) is None,
        },
{
    let url = url::Url::parse(text).ok()?;
    Some(
        Link {
            href: url.as_str().to_string(),
            scheme: url.scheme().to_string(),
            host: url.host_str().map(String::from),
            path: url.path().to_string(),
            query: url.query_pairs().into_owned().collect(),
        },
    )
}

impl Link {
    /// Parses an absolute URL. `None` where `text` is not one.
    pub fn parse(text: &str) -> (link: Option<Link>)
        ensures
            match link {
                Some(l) => url_parts(text@) == Some(l@),
                None => url_parts(text@) is None,
            },
    {
        parse_url(text)
    }

    /// The host without a leading "www.", if the link has a host.
    pub fn bare_host(&self) -> (host: Option<Vec<char>>)
        ensures
            match host {
                Some(h) => bare_host(self@) == Some(h@),
                None => bare_host(self@) is None,
            },
    {
        match &self.host {
            Some(host) => {
                let chars = chars_of(host.as_str());
                match without_prefix(&chars, &chars_of("www.")) {
                    Some(rest) => Some(rest),
                    None => Some(chars),
                }
            },
            None => None,
        }
    }

    /// Whether the scheme is `http` or `https`.
    pub fn is_web(&self) -> (yes: bool)
        ensures
            yes == web(self@),
    {
        same_text(self.scheme.as_str(), "http") || same_text(self.scheme.as_str(), "https")
    }
}

/// Whether the scheme of `l` is `http` or `https`.
pub open spec fn web(l: LinkView) -> bool {
    l.scheme == "http"@ || l.scheme == "https"@
}

/// The host of `l` without a leading "www.".
pub open spec fn bare_host(l: LinkView) -> Option<Seq<char>> {
    match l.host {
        Some(host) => match strip_prefix(host, "www."@) {
            Some(rest) => Some(rest),
            None => Some(host),
        },
        None => None,
    }
}

// ---------------------------------------------------------------------------
// Hosts
// ---------------------------------------------------------------------------

/// Whether `host` is `domain` or a subdomain of it.
pub open spec fn under(host: Seq<char>, domain: Seq<char>) -> bool {
    host == domain || ends_with(host, "."@ + domain)
}

/// Whether `host` is one of `domains` or a subdomain of one.
pub open spec fn under_any(host: Seq<char>, domains: Seq<&'static str>) -> bool {
    exists|i: int| 0 <= i < domains.len() && under(host, (#[trigger] domains[i])@)
}

/// Whether `host` is `domain` or a subdomain of it.
fn is_under(host: &Vec<char>, domain: &str) -> (yes: bool)
    ensures
        yes == under(host@, domain@),
{
    let name = chars_of(domain);
    if same_chars(host, &name) {
        return true;
    }
    let mut dotted = chars_of(".");
    let mut rest = name;
    dotted.append(&mut rest);
    has_suffix(host, &dotted)
}

/// Whether `host` is one of `domains` or a subdomain of one.
fn is_under_any(host: &Vec<char>, domains: &Vec<&'static str>) -> (yes: bool)
    ensures
        yes == under_any(host@, domains@),
{
    let mut i: usize = 0;
    while i < domains.len()
        invariant
            i <= domains.len(),
            forall|j: int| 0 <= j < i ==> !under(host@, (#[trigger] domains@[j])@),
        decreases domains.len() - i,
    {
        if is_under(host, domains[i]) {
            assert(under(host@, domains@[i as int]@));
            return true;
        }
        i += 1;
    }
    false
}

/// A name that merely ends in the letters of a domain is not under it.
pub proof fn lookalike_suffix_is_not_under(front: Seq<char>, domain: Seq<char>)
    requires
        front.len() > 0,
        front.last() != '.',
    ensures
        !under(front + domain, domain),
{
    reveal_strlit(".");
    let host = front + domain;
    let dotted = "."@ + domain;
    assert(host.len() > domain.len());
    if ends_with(host, dotted) {
        let at = host.len() - dotted.len();
        assert(host.subrange(at, at + dotted.len())[0] == host[at]);
        assert(dotted[0] == '.');
        assert(host[at] == front.last());
    }
}

/// Whether `label` could be a label of a country domain: two or three ASCII
/// letters.
pub open spec fn short_label(label: Seq<char>) -> bool {
    &&& 2 <= label.len() <= 3
    &&& forall|i: int|
        0 <= i < label.len() ==> 'a' <= #[trigger] label[i] <= 'z' || 'A' <= label[i] <= 'Z'
}

/// Whether `tld` could be a top-level domain, such as `com`, `no` or `co.uk`:
/// at most six characters, each label two or three letters.
pub open spec fn plausible_tld(tld: Seq<char>) -> bool {
    &&& 0 < tld.len() <= 6
    &&& forall|k: int| 0 <= k < split(tld, '.').len() ==> short_label(#[trigger] split(tld, '.')[k])
}

/// Whether `host` has the label `google` at `at`, with nothing but a plausible
/// top-level domain behind it.
pub open spec fn google_label_at(host: Seq<char>, at: int) -> bool {
    &&& occurs_at(host, "google."@, at)
    &&& at == 0 || host[at - 1] == '.'
    &&& plausible_tld(host.skip((at + "google."@.len()) as int))
}

/// Whether the registrable domain of `host` is one of Google's: `youtube.com`,
/// or `google` under a plausible top-level domain.
pub open spec fn google_owned(host: Seq<char>) -> bool {
    ||| under(host, "youtube.com"@)
    ||| exists|at: int| #[trigger] google_label_at(host, at)
}

fn is_short_label(label: &Vec<char>) -> (yes: bool)
    ensures
        yes == short_label(label@),
{
    if label.len() < 2 || label.len() > 3 {
        return false;
    }
    let mut i: usize = 0;
    while i < label.len()
        invariant
            i <= label.len(),
            forall|j: int|
                0 <= j < i ==> 'a' <= #[trigger] label@[j] <= 'z' || 'A' <= label@[j] <= 'Z',
        decreases label.len() - i,
    {
        let c = label[i];
        if !(('a' <= c && c <= 'z') || ('A' <= c && c <= 'Z')) {
            return false;
        }
        i += 1;
    }
    true
}

fn is_plausible_tld(tld: &Vec<char>) -> (yes: bool)
    ensures
        yes == plausible_tld(tld@),
{
    if tld.len() == 0 || tld.len() > 6 {
        return false;
    }
    let labels = split_chars(tld, '.');
    let mut k: usize = 0;
    while k < labels.len()
        invariant
            k <= labels.len(),
            parts_view(labels@) == split(tld@, '.'),
            forall|j: int| 0 <= j < k ==> short_label(#[trigger] split(tld@, '.')[j]),
        decreases labels.len() - k,
    {
        assert(split(tld@, '.')[k as int] == labels@[k as int]@);
        if !is_short_label(&labels[k]) {
            return false;
        }
        k += 1;
    }
    true
}

/// Whether the registrable domain of `host` is one of Google's. Names such as
/// `accounts.google.evil.com` are not.
pub fn is_google_owned_host(host: &str) -> (yes: bool)
    ensures
        yes == google_owned(host@),
{
    let chars = chars_of(host);
    if is_under(&chars, "youtube.com") {
        return true;
    }
    let name = chars_of("google.");
    let mut at: usize = 0;
    while at < chars.len()
        invariant
            at <= chars.len(),
            chars@ == host@,
            name@ == "google."@,
            forall|j: int| 0 <= j < at ==> !#[trigger] google_label_at(host@, j),
        decreases chars.len() - at,
    {
        if has_at(&chars, &name, at) && (at == 0 || chars[at - 1] == '.') {
            let tld = slice_chars(&chars, at + name.len(), chars.len());
            assert(tld@ =~= host@.skip((at + name@.len()) as int));
            if is_plausible_tld(&tld) {
                assert(google_label_at(host@, at as int));
                return true;
            }
        }
        assert(!google_label_at(host@, at as int));
        at += 1;
    }
    proof {
        reveal_strlit("google.");
    }
    false
}

// ---------------------------------------------------------------------------
// Tracking redirects
// ---------------------------------------------------------------------------

/// Whether `l` is one of Facebook's tracking redirects.
pub open spec fn tracking(l: LinkView) -> bool {
    bare_host(l) matches Some(host) && {
        ||| host == "l.facebook.com"@
        ||| host == "lm.facebook.com"@
        ||| host == "facebook.com"@ && l.path == "/l.php"@
    }
}

/// The value of the first pair of `query` whose name is `name`.
pub open spec fn first_value(
    query: Seq<(Seq<char>, Seq<char>)>,
    name: Seq<char>,
) -> Option<Seq<char>>
    decreases query.len(),
{
    if query.len() == 0 {
        None
    } else if query[0].0 == name {
        Some(query[0].1)
    } else {
        first_value(query.drop_first(), name)
    }
}

/// What `l` redirects to, if it is a tracking redirect with a target.
pub open spec fn redirect_target(l: LinkView) -> Option<Seq<char>> {
    if tracking(l) {
        first_value(l.query, "u"@)
    } else {
        None
    }
}

/// Whether `parsed` is a web link.
pub open spec fn parsed_web(parsed: Option<LinkView>) -> bool {
    parsed matches Some(l) && web(l)
}

/// The real destination of `l`, if it is a tracking redirect to a web link.
pub open spec fn unwrapped(l: LinkView) -> Option<Seq<char>> {
    match redirect_target(l) {
        Some(target) => if parsed_web(url_parts(target)) {
            Some(target)
        } else {
            None
        },
        None => None,
    }
}

/// The model of an optional text.
pub open spec fn text_view(text: Option<String>) -> Option<Seq<char>> {
    match text {
        Some(t) => Some(t@),
        None => None,
    }
}

/// The model of an optional link.
pub open spec fn link_view(link: Option<Link>) -> Option<LinkView> {
    match link {
        Some(l) => Some(l@),
        None => None,
    }
}

/// Whether `link` is one of Facebook's tracking redirects.
fn is_tracking(link: &Link) -> (yes: bool)
    ensures
        yes == tracking(link@),
{
    match link.bare_host() {
        Some(host) => {
            same_chars(&host, &chars_of("l.facebook.com")) || same_chars(
                &host,
                &chars_of("lm.facebook.com"),
            ) || (same_chars(&host, &chars_of("facebook.com")) && same_text(
                link.path.as_str(),
                "/l.php",
            ))
        },
        None => false,
    }
}

/// What `link` redirects to, if it is a tracking redirect with a target.
pub fn tracking_target(link: &Link) -> (target: Option<String>)
    ensures
        text_view(target) == redirect_target(link@),
{
    if !is_tracking(link) {
        return None;
    }
    let mut i: usize = 0;
    assert(link@.query.skip(0) =~= link@.query);
    while i < link.query.len()
        invariant
            i <= link.query.len(),
            tracking(link@),
            first_value(link@.query, "u"@) == first_value(link@.query.skip(i as int), "u"@),
        decreases link.query.len() - i,
    {
        assert(link@.query.skip(i as int)[0] == link@.query[i as int]);
        if same_text(link.query[i].0.as_str(), "u") {
            return Some(link.query[i].1.clone());
        }
        assert(link@.query.skip(i as int).drop_first() =~= link@.query.skip(i + 1));
        i += 1;
    }
    None
}

/// `target`, if what it parses to is a web link: never a `javascript:`, `file:`
/// or `data:` target.
pub fn accept_target(target: String, parsed: &Option<Link>) -> (accepted: Option<String>)
    ensures
        text_view(accepted) == (if parsed_web(link_view(*parsed)) {
            Some(target@)
        } else {
            None
        }),
{
    match parsed {
        Some(link) => if link.is_web() {
            Some(target)
        } else {
            None
        },
        None => None,
    }
}

/// Facebook wraps external links in tracking redirects
/// (`l.facebook.com/l.php?u=…`, `lm.facebook.com/l.php?u=…`,
/// `facebook.com/l.php?u=…`). Returns the real destination if `link` is such a
/// redirect to a web link.
pub fn unwrap_tracking(link: &Link) -> (target: Option<String>)
    ensures
        text_view(target) == unwrapped(link@),
{
    match tracking_target(link) {
        Some(target) => {
            let parsed = Link::parse(target.as_str());
            accept_target(target, &parsed)
        },
        None => None,
    }
}

/// Unwrapping only ever yields web links.
pub proof fn unwrapped_target_is_web(l: LinkView)
    ensures
        unwrapped(l) matches Some(target) ==> parsed_web(url_parts(target)),
{
}

// ---------------------------------------------------------------------------
// Links that stay in the app
// ---------------------------------------------------------------------------

/// Hosts that serve nothing but sign-in.
pub open spec fn auth_hosts() -> Seq<&'static str> {
    seq!["login.microsoftonline.com", "appleid.apple.com"]
}

/// The host of `l` in small letters; empty where it has none.
pub open spec fn lower_host(l: LinkView) -> Seq<char> {
    match l.host {
        Some(host) => lower(host),
        None => Seq::<char>::empty(),
    }
}

/// Whether `l` belongs to the sign-in of another provider.
pub open spec fn auth(l: LinkView) -> bool {
    let host = lower_host(l);
    ||| under_any(host, auth_hosts())
    ||| google_owned(host) && (starts_with(host, "accounts."@) || starts_with(
        l.path,
        "/accounts/"@,
    ))
}

/// Domains kept inside the app.
pub open spec fn internal_domains() -> Seq<&'static str> {
    seq!["facebook.com", "messenger.com", "fbcdn.net", "fbsbx.com", "meta.com", "oculus.com"]
}

/// Whether `l` is a web page that is kept inside the app.
pub open spec fn internal_page(l: LinkView) -> bool {
    web(l) && (auth(l) || (bare_host(l) matches Some(host) && under_any(host, internal_domains())))
}

/// What follows `blob:` in a blob link.
pub open spec fn blob_inner(l: LinkView) -> Option<Seq<char>> {
    strip_prefix(l.href, "blob:"@)
}

/// Whether `l` is kept inside the app, where a blob link is judged by the link
/// inside it and at most `depth` blob links are nested.
pub open spec fn internal_within(l: LinkView, depth: nat) -> bool
    decreases depth,
{
    if l.scheme == "about"@ {
        true
    } else if l.scheme == "blob"@ {
        depth > 0 && (blob_inner(l) matches Some(text) && (url_parts(text) matches Some(inner)
            && internal_within(inner, (depth - 1) as nat)))
    } else {
        internal_page(l)
    }
}

/// Whether `l` is kept inside the app. Each nested blob link takes five bytes of
/// the text, so the bound on the nesting is beyond any text.
pub open spec fn internal(l: LinkView) -> bool {
    internal_within(l, u64::MAX as nat)
}

/// OAuth and sign-in URLs that must stay inside the app, so that signing in with
/// Google, Apple or Microsoft works as a popup instead of bouncing to the
/// browser. Restricted to hosts and paths that serve nothing but sign-in.
pub fn is_auth_url(link: &Link) -> (yes: bool)
    ensures
        yes == auth(link@),
{
    let host: Vec<char> = match &link.host {
        Some(host) => lower_chars(&chars_of(host.as_str())),
        None => Vec::new(),
    };
    assert(host@ =~= lower_host(link@));
    let hosts: Vec<&'static str> = vec!["login.microsoftonline.com", "appleid.apple.com"];
    assert(hosts@ =~= auth_hosts());
    if is_under_any(&host, &hosts) {
        return true;
    }
    is_google_owned_host(text_of(&host).as_str()) && (has_prefix(&host, &chars_of("accounts."))
        || has_prefix(&chars_of(link.path.as_str()), &chars_of("/accounts/")))
}

/// Whether `link` is a web page that is kept inside the app.
pub fn is_internal_page(link: &Link) -> (yes: bool)
    ensures
        yes == internal_page(link@),
{
    if !link.is_web() {
        return false;
    }
    if is_auth_url(link) {
        return true;
    }
    match link.bare_host() {
        Some(host) => {
            let domains: Vec<&'static str> = vec![
                "facebook.com",
                "messenger.com",
                "fbcdn.net",
                "fbsbx.com",
                "meta.com",
                "oculus.com",
            ];
            assert(domains@ =~= internal_domains());
            is_under_any(&host, &domains)
        },
        None => false,
    }
}

/// What follows `blob:` in a blob link.
pub fn blob_target(link: &Link) -> (inner: Option<String>)
    ensures
        text_view(inner) == blob_inner(link@),
{
    match without_prefix(&chars_of(link.href.as_str()), &chars_of("blob:")) {
        Some(rest) => Some(text_of(&rest)),
        None => None,
    }
}

fn is_internal_within(link: &Link, depth: u64) -> (yes: bool)
    ensures
        yes == internal_within(link@, depth as nat),
    decreases depth,
{
    if same_text(link.scheme.as_str(), "about") {
        return true;
    }
    if same_text(link.scheme.as_str(), "blob") {
        if depth == 0 {
            return false;
        }
        return match blob_target(link) {
            Some(text) => match Link::parse(text.as_str()) {
                Some(inner) => is_internal_within(&inner, depth - 1),
                None => false,
            },
            None => false,
        };
    }
    is_internal_page(link)
}

/// Whether `link` is kept inside the app: Messenger, and the sign-in and media
/// surfaces needed to log in and load content. A blob link is judged by the
/// link inside it.
pub fn is_internal(link: &Link) -> (yes: bool)
    ensures
        yes == internal(link@),
{
    is_internal_within(link, u64::MAX)
}

/// Whether the blob links nested in `l` come to an end within `depth` of them: at
/// a link of another kind, or at text that is no link.
pub open spec fn nested_within(l: LinkView, depth: nat) -> bool
    decreases depth,
{
    l.scheme == "blob"@ ==> depth > 0 && (blob_inner(l) matches Some(text) ==> (url_parts(
        text,
    ) matches Some(inner) ==> nested_within(inner, (depth - 1) as nat)))
}

/// Once the nested blob links have come to an end, a larger bound on the nesting
/// changes nothing.
proof fn lemma_bound_is_irrelevant(l: LinkView, depth: nat, larger: nat)
    requires
        nested_within(l, depth),
        depth <= larger,
    ensures
        internal_within(l, depth) == internal_within(l, larger),
    decreases depth,
{
    lemma_schemes_differ();
    if l.scheme == "blob"@ {
        if let Some(text) = blob_inner(l) {
            if let Some(inner) = url_parts(text) {
                lemma_bound_is_irrelevant(inner, (depth - 1) as nat, (larger - 1) as nat);
            }
        }
    }
}

/// Whether the text behind `blob:` in `l` is an internal link.
pub open spec fn internal_inside(l: LinkView) -> bool {
    blob_inner(l) matches Some(text) && (url_parts(text) matches Some(inner) && internal(inner))
}

/// A blob link around a link of another kind is judged as that link is; one
/// around text that is no link is not internal.
pub proof fn blob_is_judged_by_what_is_inside(l: LinkView)
    requires
        l.scheme == "blob"@,
        blob_inner(l) matches Some(text) ==> (url_parts(text) matches Some(inner) ==> inner.scheme
            != "blob"@),
    ensures
        internal(l) == internal_inside(l),
{
    assert(nested_within(l, 1)) by {
        reveal_with_fuel(nested_within, 2);
    }
    nested_blob_is_judged_by_what_is_inside(l, 1);
}

/// A blob link is judged as the link inside it is, however deep blob links are
/// nested. The bound on the nesting is that of the largest number; a text with
/// more of them does not fit in any memory.
pub proof fn nested_blob_is_judged_by_what_is_inside(l: LinkView, depth: nat)
    requires
        l.scheme == "blob"@,
        nested_within(l, depth),
        depth <= u64::MAX,
    ensures
        internal(l) == internal_inside(l),
{
    lemma_schemes_differ();
    if let Some(text) = blob_inner(l) {
        if let Some(inner) = url_parts(text) {
            lemma_bound_is_irrelevant(inner, (depth - 1) as nat, (u64::MAX - 1) as nat);
            lemma_bound_is_irrelevant(inner, (depth - 1) as nat, u64::MAX as nat);
        }
    }
}

/// The two schemes that are not judged by a host are different.
proof fn lemma_schemes_differ()
    ensures
        "about"@ != "blob"@,
{
    reveal_strlit("about");
    reveal_strlit("blob");
    assert("about"@[0] != "blob"@[0]);
}

/// Whatever is not `about:`, `blob:` or a web link is never internal; so not
/// `data:`, `javascript:` or `file:`.
pub proof fn other_schemes_are_not_internal(l: LinkView)
    requires
        l.scheme != "about"@,
        l.scheme != "blob"@,
        !web(l),
    ensures
        !internal(l),
{
}

/// Sign-in pages stay in the app.
pub proof fn auth_pages_are_internal(l: LinkView)
    requires
        web(l),
        auth(l),
    ensures
        internal(l),
{
    lemma_web_schemes(l);
}

/// A web link has neither of the other schemes that can be internal.
proof fn lemma_web_schemes(l: LinkView)
    requires
        web(l),
    ensures
        l.scheme != "about"@,
        l.scheme != "blob"@,
{
    reveal_strlit("http");
    reveal_strlit("https");
    reveal_strlit("about");
    reveal_strlit("blob");
    assert("http"@[0] != "blob"@[0]);
    assert("https"@[0] != "about"@[0]);
}

// ---------------------------------------------------------------------------
// Media
// ---------------------------------------------------------------------------

/// The hosts that media may be fetched from.
pub open spec fn media_domains() -> Seq<&'static str> {
    seq!["fbcdn.net", "fbsbx.com", "facebook.com", "messenger.com"]
}

/// Whether media may be fetched from `l`.
pub open spec fn fetchable(l: LinkView) -> bool {
    l.scheme == "https"@ && (bare_host(l) matches Some(host) && under_any(host, media_domains()))
}

/// Whether media may be fetched from `link`: only over HTTPS, and only from
/// Facebook's and Messenger's own media hosts. No address, and no other name,
/// is ever fetched.
pub fn is_fetchable_media_host(link: &Link) -> (yes: bool)
    ensures
        yes == fetchable(link@),
{
    if !same_text(link.scheme.as_str(), "https") {
        return false;
    }
    match link.bare_host() {
        Some(host) => {
            let domains: Vec<&'static str> = vec![
                "fbcdn.net",
                "fbsbx.com",
                "facebook.com",
                "messenger.com",
            ];
            assert(domains@ =~= media_domains());
            is_under_any(&host, &domains)
        },
        None => false,
    }
}

/// Everything that media is fetched from is a page that stays in the app.
pub proof fn fetchable_links_are_internal(l: LinkView)
    requires
        fetchable(l),
    ensures
        internal(l),
{
    lemma_web_schemes(l);
    let host = bare_host(l)->0;
    let i = choose|i: int|
        0 <= i < media_domains().len() && under(host, (#[trigger] media_domains()[i])@);
    let k: int = if i == 0 {
        2
    } else if i == 1 {
        3
    } else if i == 2 {
        0
    } else {
        1
    };
    assert(internal_domains()[k] == media_domains()[i]);
    assert(under(host, internal_domains()[k]@));
}

// ---------------------------------------------------------------------------
// Navigation
// ---------------------------------------------------------------------------

/// What becomes of a navigation.
#[derive(Debug)]
pub enum Navigation {
    /// The page loads in the app.
    Stay,
    /// The page stays where it is, and the browser opens this URL.
    OpenInBrowser(String),
    /// The page stays where it is, and nothing opens.
    Block,
}

/// The model of a [`Navigation`].
pub enum NavigationView {
    /// The page loads in the app.
    Stay,
    /// The browser opens this URL.
    OpenInBrowser(Seq<char>),
    /// Nothing opens.
    Block,
}

impl View for Navigation {
    type V = NavigationView;

    open spec fn view(&self) -> NavigationView {
        match self {
            Navigation::Stay => NavigationView::Stay,
            Navigation::OpenInBrowser(url) => NavigationView::OpenInBrowser(url@),
            Navigation::Block => NavigationView::Block,
        }
    }
}

/// What becomes of a navigation to `l`, given what it unwraps to and whether it
/// is internal.
pub open spec fn decided(
    l: LinkView,
    target: Option<Seq<char>>,
    is_internal: bool,
) -> NavigationView {
    match target {
        Some(destination) => NavigationView::OpenInBrowser(destination),
        None => if is_internal {
            NavigationView::Stay
        } else if web(l) {
            NavigationView::OpenInBrowser(l.href)
        } else {
            NavigationView::Block
        },
    }
}

/// What becomes of a navigation to `l`.
pub open spec fn navigation(l: LinkView) -> NavigationView {
    decided(l, unwrapped(l), internal(l))
}

/// What becomes of a navigation to `link`, given what it unwraps to and whether
/// it is internal.
pub fn decide_navigation(link: &Link, target: Option<String>, internal: bool) -> (step: Navigation)
    ensures
        step@ == decided(link@, text_view(target), internal),
{
    match target {
        Some(destination) => Navigation::OpenInBrowser(destination),
        None => {
            if internal {
                Navigation::Stay
            } else if link.is_web() {
                Navigation::OpenInBrowser(link.href.clone())
            } else {
                Navigation::Block
            }
        },
    }
}

/// Decides a navigation: a tracking redirect goes to the browser without the
/// tracker, an internal link loads in the app, any other web link goes to the
/// browser, and anything else is blocked.
pub fn navigate(link: &Link) -> (step: Navigation)
    ensures
        step@ == navigation(link@),
{
    let target = unwrap_tracking(link);
    let internal = is_internal(link);
    decide_navigation(link, target, internal)
}

/// The browser is only ever handed web links.
pub proof fn browser_opens_only_web_links(l: LinkView)
    ensures
        navigation(l) matches NavigationView::OpenInBrowser(url) ==> parsed_web(url_parts(url))
            || (url == l.href && web(l)),
{
}

/// Anything that is not Messenger opens in the browser: a web link that is
/// neither internal nor a tracking redirect is handed over as it is.
pub proof fn external_web_links_open_in_the_browser(l: LinkView)
    requires
        web(l),
        !internal(l),
        unwrapped(l) is None,
    ensures
        navigation(l) == NavigationView::OpenInBrowser(l.href),
{
}

/// A tracking redirect to a web link never loads, in the app or elsewhere: the
/// browser opens its target instead.
pub proof fn tracking_redirects_are_stripped(l: LinkView)
    requires
        redirect_target(l) is Some,
        parsed_web(url_parts(redirect_target(l)->0)),
    ensures
        navigation(l) == NavigationView::OpenInBrowser(redirect_target(l)->0),
{
}

/// A link that is neither `about:`, `blob:` nor a web link, and no redirect to
/// one, goes nowhere.
pub proof fn dangerous_schemes_are_blocked(l: LinkView)
    requires
        l.scheme != "about"@,
        l.scheme != "blob"@,
        !web(l),
        unwrapped(l) is None,
    ensures
        navigation(l) == NavigationView::Block,
{
    other_schemes_are_not_internal(l);
}

/// A link that is internal and no tracking redirect loads in the app.
pub proof fn internal_links_load_in_the_app(l: LinkView)
    requires
        internal(l),
        unwrapped(l) is None,
    ensures
        navigation(l) == NavigationView::Stay,
{
}

/// A host that ends in Facebook's domain belongs to no other provider's sign-in.
proof fn lemma_facebook_host_is_no_auth_host(host: Seq<char>)
    requires
        ends_with(host, "facebook.com"@),
    ensures
        !google_owned(lower(host)),
        !under_any(lower(host), auth_hosts()),
{
    reveal_strlit("facebook.com");
    reveal_strlit("youtube.com");
    reveal_strlit("google.");
    reveal_strlit("login.microsoftonline.com");
    reveal_strlit("appleid.apple.com");
    reveal_strlit(".");
    let small = lower(host);
    let n = small.len() as int;
    assert forall|i: int| 0 <= i < 12 implies small[n - 12 + i] == #[trigger] "facebook.com"@[i] by {
        assert(host.subrange(n - 12, n)[i] == host[n - 12 + i]);
        assert(small[n - 12 + i] == lower_char(host[n - 12 + i]));
    }
    assert("facebook.com"@[7] == 'k');
    assert(small[n - 5] == 'k');
    assert forall|domain: Seq<char>|
        domain.len() >= 5 && domain[domain.len() - 5] == 'e' implies !#[trigger] under(
        small,
        domain,
    ) by {
        let dotted = "."@ + domain;
        if ends_with(small, dotted) {
            let at = small.len() - dotted.len();
            assert(small.subrange(at, at + dotted.len())[dotted.len() - 5] == small[n - 5]);
            assert(dotted[dotted.len() - 5] == domain[domain.len() - 5]);
        }
    }
    assert(!under(small, "youtube.com"@));
    assert forall|i: int| 0 <= i < auth_hosts().len() implies !under(
        small,
        (#[trigger] auth_hosts()[i])@,
    ) by {
        if i == 0 {
            assert(auth_hosts()[i]@ == "login.microsoftonline.com"@);
        } else {
            assert(auth_hosts()[i]@ == "appleid.apple.com"@);
        }
    }
    assert forall|at: int| !#[trigger] google_label_at(small, at) by {
        if google_label_at(small, at) {
            let tld = small.skip(at + 7);
            assert(small.subrange(at, at + 7)[6] == small[at + 6]);
            assert(small.subrange(at, at + 7)[5] == small[at + 5]);
            assert("google."@[6] == '.');
            assert("google."@[5] == 'e');
            assert(n - 7 <= at + 6 <= n - 2);
            assert("facebook.com"@[at + 6 - (n - 12)] == '.');
            assert(at + 6 == n - 4);
        }
    }
}

/// Signing in with another provider works inside the app: its pages are neither
/// handed to the browser nor taken for tracking redirects.
pub proof fn sign_in_stays_in_the_app(l: LinkView)
    requires
        web(l),
        auth(l),
    ensures
        navigation(l) == NavigationView::Stay,
{
    auth_pages_are_internal(l);
    if tracking(l) {
        reveal_strlit("www.");
        reveal_strlit("l.facebook.com");
        reveal_strlit("lm.facebook.com");
        reveal_strlit("facebook.com");
        let host = l.host->0;
        let bare = bare_host(l)->0;
        assert(bare.subrange(bare.len() - 12, bare.len() as int) =~= "facebook.com"@);
        assert(host.subrange(host.len() - 12, host.len() as int) =~= "facebook.com"@) by {
            let k = host.len() - bare.len();
            assert(bare =~= host.skip(k));
            assert(host.subrange(host.len() - 12, host.len() as int) =~= bare.subrange(
                bare.len() - 12,
                bare.len() as int,
            ));
        }
        lemma_facebook_host_is_no_auth_host(host);
    }
}

// ---------------------------------------------------------------------------
// The rules, link by link
// ---------------------------------------------------------------------------

/// Whether `host` is `domain`, or ends in a dot and `domain`.
pub open spec fn in_domain(host: Seq<char>, domain: Seq<char>) -> bool {
    host == domain || (host.len() > domain.len() && host.skip(host.len() - domain.len() - 1)
        == seq!['.'] + domain)
}

proof fn lemma_under(host: Seq<char>, domain: Seq<char>)
    ensures
        under(host, domain) == in_domain(host, domain),
{
    reveal_strlit(".");
    assert("."@ =~= seq!['.']);
    let dotted = "."@ + domain;
    if host.len() > domain.len() {
        let at = host.len() - dotted.len();
        assert(host.skip(at) =~= host.subrange(at, at + dotted.len()));
    }
}

/// A leading "www." makes no difference to the domain that a host belongs to.
proof fn lemma_bare_host(l: LinkView, domain: Seq<char>)
    requires
        l.host is Some,
        domain.len() > 0,
        domain[0] != 'w',
    ensures
        under(bare_host(l)->0, domain) == in_domain(l.host->0, domain),
{
    reveal_strlit("www.");
    let host = l.host->0;
    let bare = bare_host(l)->0;
    lemma_under(bare, domain);
    let dotted = seq!['.'] + domain;
    if starts_with(host, "www."@) {
        assert(host.subrange(0, 4)[0] == host[0]);
        assert(host.subrange(0, 4)[1] == host[1]);
        assert(host.subrange(0, 4)[2] == host[2]);
        assert(host.subrange(0, 4)[3] == host[3]);
        assert(bare == host.skip(4));
        if in_domain(bare, domain) {
            if bare == domain {
                assert(host.skip(3) =~= dotted);
            } else {
                let at = host.len() - dotted.len();
                assert(host.skip(at) =~= bare.skip(bare.len() - dotted.len()));
            }
        }
        if in_domain(host, domain) {
            assert(host != domain);
            let at = host.len() - dotted.len();
            assert(host.skip(at)[0] == host[at]);
            assert(dotted[0] == '.');
            if bare.len() > domain.len() {
                assert(bare.skip(bare.len() - dotted.len()) =~= host.skip(at));
            } else {
                assert(at >= 3);
                assert(bare =~= host.skip(at).skip(1));
                assert(dotted.skip(1) =~= domain);
            }
        }
    }
}

/// Whether the host of `l` is in one of the domains that Messenger is made of.
pub open spec fn messenger_host(l: LinkView) -> bool {
    l.host matches Some(host) && {
        ||| in_domain(host, "facebook.com"@)
        ||| in_domain(host, "messenger.com"@)
        ||| in_domain(host, "fbcdn.net"@)
        ||| in_domain(host, "fbsbx.com"@)
        ||| in_domain(host, "meta.com"@)
        ||| in_domain(host, "oculus.com"@)
    }
}

/// A web page is kept in the app exactly where its host is in one of Messenger's
/// domains or it belongs to a sign-in; nothing else on the web is.
pub proof fn only_messenger_and_sign_in_are_internal(l: LinkView)
    requires
        l.scheme == "http"@ || l.scheme == "https"@,
    ensures
        internal(l) == (auth(l) || messenger_host(l)),
        internal_page(l) == (auth(l) || messenger_host(l)),
{
    lemma_web_schemes(l);
    reveal_strlit("facebook.com");
    reveal_strlit("messenger.com");
    reveal_strlit("fbcdn.net");
    reveal_strlit("fbsbx.com");
    reveal_strlit("meta.com");
    reveal_strlit("oculus.com");
    if l.host is Some {
        lemma_bare_host(l, "facebook.com"@);
        lemma_bare_host(l, "messenger.com"@);
        lemma_bare_host(l, "fbcdn.net"@);
        lemma_bare_host(l, "fbsbx.com"@);
        lemma_bare_host(l, "meta.com"@);
        lemma_bare_host(l, "oculus.com"@);
        let bare = bare_host(l)->0;
        let d = internal_domains();
        assert(d[0]@ == "facebook.com"@ && d[1]@ == "messenger.com"@ && d[2]@ == "fbcdn.net"@);
        assert(d[3]@ == "fbsbx.com"@ && d[4]@ == "meta.com"@ && d[5]@ == "oculus.com"@);
        assert(d.len() == 6);
        if under_any(bare, d) {
            let i = choose|i: int| 0 <= i < d.len() && under(bare, (#[trigger] d[i])@);
            assert(i == 0 || i == 1 || i == 2 || i == 3 || i == 4 || i == 5);
        }
    }
}

/// Media is fetched over HTTPS alone, and from the hosts of four domains alone;
/// from those it always is.
pub proof fn media_comes_from_four_domains(l: LinkView)
    ensures
        fetchable(l) == (l.scheme == "https"@ && (l.host matches Some(host) && {
            ||| in_domain(host, "fbcdn.net"@)
            ||| in_domain(host, "fbsbx.com"@)
            ||| in_domain(host, "facebook.com"@)
            ||| in_domain(host, "messenger.com"@)
        })),
{
    reveal_strlit("facebook.com");
    reveal_strlit("messenger.com");
    reveal_strlit("fbcdn.net");
    reveal_strlit("fbsbx.com");
    if l.host is Some {
        lemma_bare_host(l, "facebook.com"@);
        lemma_bare_host(l, "messenger.com"@);
        lemma_bare_host(l, "fbcdn.net"@);
        lemma_bare_host(l, "fbsbx.com"@);
        let bare = bare_host(l)->0;
        let d = media_domains();
        assert(d[0]@ == "fbcdn.net"@ && d[1]@ == "fbsbx.com"@);
        assert(d[2]@ == "facebook.com"@ && d[3]@ == "messenger.com"@);
        assert(d.len() == 4);
        if under_any(bare, d) {
            let i = choose|i: int| 0 <= i < d.len() && under(bare, (#[trigger] d[i])@);
            assert(i == 0 || i == 1 || i == 2 || i == 3);
        }
    }
}

/// Whether `l` is addressed to one of the three places where Facebook's tracking
/// redirects are.
pub open spec fn redirect_address(l: LinkView) -> bool {
    l.host matches Some(host) && {
        ||| host == "l.facebook.com"@
        ||| host == "www.l.facebook.com"@
        ||| host == "lm.facebook.com"@
        ||| host == "www.lm.facebook.com"@
        ||| host == "facebook.com"@ && l.path == "/l.php"@
        ||| host == "www.facebook.com"@ && l.path == "/l.php"@
    }
}

/// Removing a leading "www." gives `name` for two hosts alone.
proof fn lemma_bare_host_is(l: LinkView, name: Seq<char>, full: Seq<char>)
    requires
        l.host is Some,
        name.len() > 0,
        name[0] != 'w',
        full =~= "www."@ + name,
    ensures
        bare_host(l) == Some(name) <==> (l.host == Some(name) || l.host == Some(full)),
{
    reveal_strlit("www.");
    let host = l.host->0;
    if starts_with(host, "www."@) {
        assert(host.subrange(0, 4)[0] == host[0]);
        assert(host =~= host.subrange(0, 4) + host.skip(4));
    }
    if host == full {
        assert(full.subrange(0, 4) =~= "www."@);
        assert(full.skip(4) =~= name);
    }
}

proof fn lemma_tracking(l: LinkView)
    ensures
        tracking(l) == redirect_address(l),
{
    reveal_strlit("www.");
    reveal_strlit("l.facebook.com");
    reveal_strlit("lm.facebook.com");
    reveal_strlit("facebook.com");
    reveal_strlit("www.l.facebook.com");
    reveal_strlit("www.lm.facebook.com");
    reveal_strlit("www.facebook.com");
    if l.host is Some {
        assert("www.l.facebook.com"@ =~= "www."@ + "l.facebook.com"@);
        assert("www.lm.facebook.com"@ =~= "www."@ + "lm.facebook.com"@);
        assert("www.facebook.com"@ =~= "www."@ + "facebook.com"@);
        lemma_bare_host_is(l, "l.facebook.com"@, "www.l.facebook.com"@);
        lemma_bare_host_is(l, "lm.facebook.com"@, "www.lm.facebook.com"@);
        lemma_bare_host_is(l, "facebook.com"@, "www.facebook.com"@);
    }
}

/// The first pair with a name is the one whose value is taken.
proof fn lemma_first_value(query: Seq<(Seq<char>, Seq<char>)>, name: Seq<char>, k: int)
    requires
        0 <= k < query.len(),
        query[k].0 == name,
        forall|j: int| 0 <= j < k ==> (#[trigger] query[j]).0 != name,
    ensures
        first_value(query, name) == Some(query[k].1),
    decreases query.len(),
{
    if k > 0 {
        assert(query[0].0 != name);
        let rest = query.drop_first();
        assert forall|j: int| 0 <= j < k - 1 implies (#[trigger] rest[j]).0 != name by {
            assert(rest[j] == query[j + 1]);
        }
        assert(rest[k - 1] == query[k]);
        lemma_first_value(rest, name, k - 1);
    }
}

/// Without a pair of that name there is no value.
proof fn lemma_no_value(query: Seq<(Seq<char>, Seq<char>)>, name: Seq<char>)
    requires
        forall|j: int| 0 <= j < query.len() ==> (#[trigger] query[j]).0 != name,
    ensures
        first_value(query, name) is None,
    decreases query.len(),
{
    if query.len() > 0 {
        assert(query[0].0 != name);
        let rest = query.drop_first();
        assert forall|j: int| 0 <= j < rest.len() implies (#[trigger] rest[j]).0 != name by {
            assert(rest[j] == query[j + 1]);
        }
        lemma_no_value(rest, name);
    }
}

/// A tracking redirect leads to the value of its first `u`, whole and unchanged,
/// where that is a web link: it is what the browser opens.
pub proof fn redirect_opens_its_target_unabridged(l: LinkView, k: int)
    requires
        redirect_address(l),
        0 <= k < l.query.len(),
        l.query[k].0 == "u"@,
        forall|j: int| 0 <= j < k ==> (#[trigger] l.query[j]).0 != "u"@,
    ensures
        redirect_target(l) == Some(l.query[k].1),
        (url_parts(l.query[k].1) matches Some(t) && (t.scheme == "http"@ || t.scheme == "https"@))
            ==> unwrapped(l) == Some(l.query[k].1) && navigation(l)
            == NavigationView::OpenInBrowser(l.query[k].1),
        !(url_parts(l.query[k].1) matches Some(t) && (t.scheme == "http"@ || t.scheme
            == "https"@)) ==> unwrapped(l) is None,
{
    lemma_tracking(l);
    lemma_first_value(l.query, "u"@, k);
}

/// Nothing but a tracking redirect with a target is unwrapped.
pub proof fn only_redirects_are_unwrapped(l: LinkView)
    requires
        !redirect_address(l) || forall|j: int|
            0 <= j < l.query.len() ==> (#[trigger] l.query[j]).0 != "u"@,
    ensures
        redirect_target(l) is None,
        unwrapped(l) is None,
{
    lemma_tracking(l);
    if redirect_address(l) {
        lemma_no_value(l.query, "u"@);
    }
}

/// A web link that is neither in one of Messenger's domains nor part of a
/// sign-in goes to the browser, as it is.
pub proof fn the_rest_of_the_web_opens_in_the_browser(l: LinkView)
    requires
        l.scheme == "http"@ || l.scheme == "https"@,
        !messenger_host(l),
        !auth(l),
    ensures
        !internal(l),
        navigation(l) == NavigationView::OpenInBrowser(l.href),
{
    only_messenger_and_sign_in_are_internal(l);
    lemma_facebook_addresses(l);
    only_redirects_are_unwrapped(l);
}

/// Tracking redirects are in Facebook's own domain.
proof fn lemma_facebook_addresses(l: LinkView)
    ensures
        redirect_address(l) ==> messenger_host(l),
{
    reveal_strlit("l.facebook.com");
    reveal_strlit("lm.facebook.com");
    reveal_strlit("facebook.com");
    reveal_strlit("www.l.facebook.com");
    reveal_strlit("www.lm.facebook.com");
    reveal_strlit("www.facebook.com");
    if redirect_address(l) {
        let host = l.host->0;
        if host != "facebook.com"@ {
            assert(host.skip(host.len() - 13) =~= seq!['.'] + "facebook.com"@);
        }
    }
}

/// A web page in one of Messenger's domains loads in the app, unless it is a
/// tracking redirect.
pub proof fn messenger_pages_load_in_the_app(l: LinkView)
    requires
        l.scheme == "http"@ || l.scheme == "https"@,
        messenger_host(l),
        !redirect_address(l),
    ensures
        navigation(l) == NavigationView::Stay,
{
    only_messenger_and_sign_in_are_internal(l);
    only_redirects_are_unwrapped(l);
}

/// An `about:` page loads in the app; what is neither that, a blob nor a web link
/// does not, and opens nothing, unless its host is that of a tracking redirect.
pub proof fn other_schemes(l: LinkView)
    requires
        l.scheme != "blob"@,
        l.scheme != "http"@,
        l.scheme != "https"@,
        !redirect_address(l),
    ensures
        navigation(l) == (if l.scheme == "about"@ {
            NavigationView::Stay
        } else {
            NavigationView::Block
        }),
        !internal_page(l),
{
    only_redirects_are_unwrapped(l);
}

/// Of what is handed to the page's window nothing depends on the fragment, the
/// query or the way the URL is written, as long as it is no redirect and no
/// blob: links with the same scheme, host and path fare alike.
pub proof fn same_place_same_fate(a: LinkView, b: LinkView)
    requires
        a.scheme == b.scheme,
        a.host == b.host,
        a.path == b.path,
        a.scheme != "blob"@,
    ensures
        internal(a) == internal(b),
        auth(a) == auth(b),
        fetchable(a) == fetchable(b),
{
}

// ---------------------------------------------------------------------------
// Signing in, host by host
// ---------------------------------------------------------------------------

/// Whether all characters of `text` are ASCII letters.
pub open spec fn letters(text: Seq<char>) -> bool {
    forall|i: int|
        0 <= i < text.len() ==> 'a' <= #[trigger] text[i] <= 'z' || 'A' <= text[i] <= 'Z'
}

/// Whether `text` is two or three letters.
pub open spec fn short_word(text: Seq<char>) -> bool {
    (text.len() == 2 || text.len() == 3) && letters(text)
}

/// Whether `tld` is one short word, or two with a dot between them and no more
/// than six characters in all.
pub open spec fn country_domain(tld: Seq<char>) -> bool {
    ||| short_word(tld)
    ||| {
        &&& tld.len() == 5 || tld.len() == 6
        &&& (tld[2] == '.' && short_word(tld.take(2)) && short_word(tld.skip(3))) || (tld[3] == '.'
            && short_word(tld.take(3)) && short_word(tld.skip(4)))
    }
}

proof fn lemma_split_without(text: Seq<char>, separator: char)
    requires
        forall|i: int| 0 <= i < text.len() ==> #[trigger] text[i] != separator,
    ensures
        split(text, separator) == seq![text],
    decreases text.len(),
{
    if text.len() > 0 {
        let front = text.drop_last();
        assert forall|i: int| 0 <= i < front.len() implies #[trigger] front[i] != separator by {
            assert(front[i] == text[i]);
        }
        lemma_split_without(front, separator);
        assert(front.push(text.last()) =~= text);
        assert(split(text, separator) =~= seq![text]);
    } else {
        assert(text =~= Seq::<char>::empty());
    }
}

proof fn lemma_split_at_last(front: Seq<char>, separator: char, tail: Seq<char>)
    requires
        forall|i: int| 0 <= i < tail.len() ==> #[trigger] tail[i] != separator,
    ensures
        split(front.push(separator) + tail, separator) == split(front, separator).push(tail),
    decreases tail.len(),
{
    let text = front.push(separator) + tail;
    if tail.len() == 0 {
        assert(text.drop_last() =~= front);
        assert(tail =~= Seq::<char>::empty());
    } else {
        let shorter = tail.drop_last();
        assert forall|i: int| 0 <= i < shorter.len() implies #[trigger] shorter[i] != separator by {
            assert(shorter[i] == tail[i]);
        }
        lemma_split_at_last(front, separator, shorter);
        assert(text.drop_last() =~= front.push(separator) + shorter);
        assert(text.last() == tail.last());
        assert(shorter.push(tail.last()) =~= tail);
        let parts = split(text.drop_last(), separator);
        assert(parts == split(front, separator).push(shorter));
        assert(parts.update(parts.len() - 1, tail) =~= split(front, separator).push(tail));
    }
}

proof fn lemma_short_label(label: Seq<char>)
    ensures
        short_label(label) == short_word(label),
        short_label(label) ==> forall|i: int| 0 <= i < label.len() ==> #[trigger] label[i] != '.',
{
}

/// The top-level domains that are taken for Google's have one of two shapes.
pub proof fn plausible_domains_have_two_shapes(tld: Seq<char>)
    ensures
        plausible_tld(tld) == country_domain(tld),
{
    let parts = split(tld, '.');
    let dot = last_position(tld, '.');
    lemma_last_position(tld, '.');
    if dot < 0 {
        lemma_split_without(tld, '.');
        assert(parts[0] == tld);
        lemma_short_label(tld);
    } else {
        let a = tld.take(dot);
        let b = tld.skip(dot + 1);
        assert forall|i: int| 0 <= i < b.len() implies #[trigger] b[i] != '.' by {
            assert(b[i] == tld[dot + 1 + i]);
        }
        assert(tld =~= a.push('.') + b);
        lemma_split_at_last(a, '.', b);
        let front = split(a, '.');
        assert(parts == front.push(b));
        lemma_short_label(b);
        lemma_short_label(a);
        assert(!short_word(tld)) by {
            assert(tld[dot] == '.');
        }
        let inner = last_position(a, '.');
        lemma_last_position(a, '.');
        if inner < 0 {
            lemma_split_without(a, '.');
            assert(parts =~= seq![a, b]);
            assert(parts[0] == a && parts[1] == b);
            if plausible_tld(tld) {
                assert(short_label(parts[0]) && short_label(parts[1]));
            }
            if country_domain(tld) {
                lemma_country_dot(tld, dot);
                assert forall|k: int| 0 <= k < parts.len() implies short_label(
                    #[trigger] parts[k],
                ) by {}
            }
        } else {
            let c = a.take(inner);
            let d = a.skip(inner + 1);
            assert forall|i: int| 0 <= i < d.len() implies #[trigger] d[i] != '.' by {
                assert(d[i] == a[inner + 1 + i]);
            }
            assert(a =~= c.push('.') + d);
            lemma_split_at_last(c, '.', d);
            let first = split(c, '.');
            let n = first.len() as int;
            assert(parts[n] == d);
            assert(parts[n + 1] == b);
            if plausible_tld(tld) {
                assert(short_label(parts[n]));
                assert(short_label(parts[n + 1]));
                assert(c.len() == 0);
                assert(c =~= Seq::<char>::empty());
                assert(first[0] == Seq::<char>::empty());
                assert(parts[0] == Seq::<char>::empty());
                assert(short_label(parts[0]));
            }
            if country_domain(tld) {
                assert(tld[inner] == '.');
                lemma_country_dot(tld, dot);
                lemma_country_dot(tld, inner);
            }
        }
    }
}

/// A country domain of two words has its only dot between them.
proof fn lemma_country_dot(tld: Seq<char>, dot: int)
    requires
        country_domain(tld),
        0 <= dot < tld.len(),
        tld[dot] == '.',
    ensures
        dot == 2 || dot == 3,
        short_word(tld.take(dot)),
        short_word(tld.skip(dot + 1)),
        forall|i: int| 0 <= i < tld.len() && i != dot ==> #[trigger] tld[i] != '.',
{
    assert(!short_word(tld));
    let at: int = if tld[2] == '.' && short_word(tld.take(2)) && short_word(tld.skip(3)) {
        2
    } else {
        3
    };
    assert forall|i: int| 0 <= i < tld.len() && i != at implies #[trigger] tld[i] != '.' by {
        if i < at {
            assert(tld.take(at)[i] == tld[i]);
        } else {
            assert(tld.skip(at + 1)[i - at - 1] == tld[i]);
        }
    }
}

/// Whether `host` has, at `at`, a label "google" with a country domain and no
/// more behind it.
pub open spec fn google_at(host: Seq<char>, at: int) -> bool {
    &&& 0 <= at
    &&& at + 7 <= host.len()
    &&& host.subrange(at, at + 7) == "google."@
    &&& at == 0 || host[at - 1] == '.'
    &&& country_domain(host.skip(at + 7))
}

/// Google's own hosts are those of YouTube, and those with a label "google" that
/// only a country domain follows.
pub proof fn google_hosts_by_label(host: Seq<char>)
    ensures
        google_owned(host) == (in_domain(host, "youtube.com"@) || exists|at: int|
            #[trigger] google_at(host, at)),
{
    reveal_strlit("google.");
    lemma_under(host, "youtube.com"@);
    assert forall|at: int| #[trigger] google_label_at(host, at) == google_at(host, at) by {
        if 0 <= at && at + 7 <= host.len() {
            plausible_domains_have_two_shapes(host.skip(at + 7));
        }
    }
    if exists|at: int| #[trigger] google_label_at(host, at) {
        let at = choose|at: int| #[trigger] google_label_at(host, at);
        assert(google_at(host, at));
    }
    if exists|at: int| #[trigger] google_at(host, at) {
        let at = choose|at: int| #[trigger] google_at(host, at);
        assert(google_label_at(host, at));
    }
}

/// A link belongs to a sign-in exactly where its host is in the domain of a
/// provider that serves nothing else, or is one of Google's and either starts
/// with "accounts." or has a path that starts with "/accounts/". Capitals in the
/// host make no difference.
pub proof fn sign_in_by_host(l: LinkView, small: Seq<char>)
    requires
        l.host matches Some(host) ==> in_small_letters(host, small),
    ensures
        auth(l) == (l.host is Some && {
            ||| in_domain(small, "login.microsoftonline.com"@)
            ||| in_domain(small, "appleid.apple.com"@)
            ||| google_owned(small) && {
                ||| small.len() >= 9 && small.take(9) == "accounts."@
                ||| l.path.len() >= 10 && l.path.take(10) == "/accounts/"@
            }
        }),
{
    reveal_strlit("accounts.");
    reveal_strlit("/accounts/");
    let d = auth_hosts();
    assert(d[0]@ == "login.microsoftonline.com"@ && d[1]@ == "appleid.apple.com"@ && d.len() == 2);
    if let Some(host) = l.host {
        small_letters_are_lower(host, small);
        lemma_under(small, "login.microsoftonline.com"@);
        lemma_under(small, "appleid.apple.com"@);
        if under_any(small, d) {
            let i = choose|i: int| 0 <= i < d.len() && under(small, (#[trigger] d[i])@);
            assert(i == 0 || i == 1);
        }
        if small.len() >= 9 {
            assert(small.subrange(0, 9) =~= small.take(9));
        }
        if l.path.len() >= 10 {
            assert(l.path.subrange(0, 10) =~= l.path.take(10));
        }
    } else {
        lemma_no_host_no_sign_in();
    }
}

/// The empty host belongs to no provider.
proof fn lemma_no_host_no_sign_in()
    ensures
        !under_any(Seq::<char>::empty(), auth_hosts()),
        !google_owned(Seq::<char>::empty()),
{
    reveal_strlit("login.microsoftonline.com");
    reveal_strlit("appleid.apple.com");
    reveal_strlit("youtube.com");
    reveal_strlit("google.");
    reveal_strlit(".");
    let none = Seq::<char>::empty();
    let d = auth_hosts();
    assert(d[0]@ == "login.microsoftonline.com"@ && d[1]@ == "appleid.apple.com"@ && d.len() == 2);
    assert forall|i: int| 0 <= i < d.len() implies !under(none, (#[trigger] d[i])@) by {
        assert(d[i]@.len() > 0) by {
            if i == 0 {
                assert("login.microsoftonline.com"@.len() > 0);
            } else {
                assert("appleid.apple.com"@.len() > 0);
            }
        }
        assert(("."@ + d[i]@).len() > 0);
    }
    assert("youtube.com"@.len() > 0);
    assert(("."@ + "youtube.com"@).len() > 0);
    assert(!under(none, "youtube.com"@));
    assert("google."@.len() == 7);
}

/// What follows `blob:` in a blob link is the whole of the text that decides: the
/// link is kept in the app exactly where that text is a link that is.
pub proof fn blob_link_with_text(l: LinkView, text: Seq<char>)
    requires
        l.scheme == "blob"@,
        l.href == "blob:"@ + text,
        url_parts(text) matches Some(inner) ==> inner.scheme != "blob"@,
    ensures
        internal(l) == (url_parts(text) matches Some(inner) && internal(inner)),
{
    assert(l.href.subrange(0, "blob:"@.len() as int) =~= "blob:"@);
    assert(l.href.skip("blob:"@.len() as int) =~= text);
    blob_is_judged_by_what_is_inside(l);
}

/// A redirect wins over everything, then what is internal stays, then what is a
/// web link goes to the browser as it is written, and the rest goes nowhere.
pub proof fn navigation_is_decided_in_order(l: LinkView, target: Seq<char>, is_internal: bool)
    ensures
        decided(l, Some(target), is_internal) == NavigationView::OpenInBrowser(target),
        decided(l, None, true) == NavigationView::Stay,
        decided(l, None, false) == (if l.scheme == "http"@ || l.scheme == "https"@ {
            NavigationView::OpenInBrowser(l.href)
        } else {
            NavigationView::Block
        }),
{
}

/// A host loses one leading "www." and nothing else.
pub proof fn bare_hosts(l: LinkView, rest: Seq<char>)
    ensures
        l.host == Some("www."@ + rest) ==> bare_host(l) == Some(rest),
        (l.host matches Some(host) && (host.len() < 4 || host.take(4) != "www."@)) ==> bare_host(l)
            == l.host,
        l.host is None ==> bare_host(l) is None,
{
    reveal_strlit("www.");
    if let Some(host) = l.host {
        if host == "www."@ + rest {
            assert(host.subrange(0, 4) =~= "www."@);
            assert(host.skip(4) =~= rest);
        }
        if host.len() >= 4 {
            assert(host.subrange(0, 4) =~= host.take(4));
        }
    }
}

/// The text inside a blob link is all that follows `blob:` in it.
pub proof fn text_inside_a_blob_link(l: LinkView, text: Seq<char>)
    ensures
        l.href == "blob:"@ + text ==> blob_inner(l) == Some(text),
{
    if l.href == "blob:"@ + text {
        assert(l.href.subrange(0, "blob:"@.len() as int) =~= "blob:"@);
        assert(l.href.skip("blob:"@.len() as int) =~= text);
    }
}

} // verus!
