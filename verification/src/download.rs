//! Downloads: which ones a page may start, and what the file is called.

use vstd::prelude::*;

use crate::filename::{
    a_plain_name_comes_through, candidate, candidates_stay_harmless, confined, escape_at,
    harmless_name_is_kept,
    incomplete_escapes_are_kept, is_unsafe_download, percent_decode, percent_decoded,
    reserved, sanitize_filename, sanitized, sanitized_name_is_confined, solid, unsafe_name,
    without_escapes,
};
use crate::link::{
    fetchable, in_domain, is_fetchable_media_host, media_comes_from_four_domains, text_view, Link,
    LinkView,
};
use crate::text::{
    chars_of, find_last, last_position, lemma_last_position,
    lemma_last_position_is, pads, same_text, slice_chars, text_of,
    Padding,
};

verus! {

/// The last segment of the path of `l`, still percent-encoded; "download" where
/// there is none or it is empty.
pub open spec fn raw_name(l: LinkView) -> Seq<char> {
    let segment = l.path.skip(last_position(l.path, '/') + 1);
    if l.path.len() > 0 && l.path[0] == '/' && segment.len() > 0 {
        segment
    } else {
        "download"@
    }
}

/// The file name that [`filename_from_url`] makes of `l`.
pub open spec fn name_of(l: LinkView) -> Seq<char> {
    sanitized(percent_decoded(raw_name(l)))
}

/// The last segment of the path of `link`, still percent-encoded; "download"
/// where there is none or it is empty.
pub fn raw_filename(link: &Link) -> (raw: String)
    ensures
        raw@ == raw_name(link@),
{
    let path = chars_of(link.path.as_str());
    if path.len() > 0 && path[0] == '/' {
        if let Some(slash) = find_last(&path, '/') {
            proof {
                lemma_last_position(path@, '/');
            }
            let segment = slice_chars(&path, slash + 1, path.len());
            assert(segment@ =~= path@.skip(slash + 1));
            if segment.len() > 0 {
                return text_of(&segment);
            }
        } else {
            proof {
                lemma_last_position(path@, '/');
            }
        }
    }
    "download".to_string()
}

/// Best-effort file name from a URL: its last path segment, percent-decoded and
/// sanitized, without the query. Keeps the URL's own extension, so that a video
/// is not saved as an image.
pub fn filename_from_url(link: &Link) -> (name: String)
    ensures
        name@ == name_of(link@),
        confined(name@),
{
    let raw = raw_filename(link);
    sanitize_filename(percent_decode(raw.as_str()).as_str())
}

/// A file keeps the name, and with it the extension, that its URL gives it: a
/// last segment that is harmless and has no escapes is the name of the file,
/// whatever the query is.
pub proof fn plain_segment_is_the_name(l: LinkView)
    requires
        without_escapes(raw_name(l)),
        confined(raw_name(l)),
        !pads(raw_name(l)[0], Padding::WhiteSpace),
        !pads(raw_name(l).last(), Padding::WhiteSpace),
    ensures
        name_of(l) == raw_name(l),
{
    incomplete_escapes_are_kept(raw_name(l));
    harmless_name_is_kept(raw_name(l));
}

/// Whether a page may start a download from `l`: Messenger's own media, or
/// content that the page made itself.
pub open spec fn allowed_source(l: LinkView) -> bool {
    l.scheme == "blob"@ || l.scheme == "data"@ || fetchable(l)
}

/// The name a download from `l` is saved under when the web view suggests
/// `suggested`, before it is known whether a file of that name exists.
pub open spec fn wanted_name(l: LinkView, suggested: Option<Seq<char>>) -> Seq<char> {
    match suggested {
        Some(name) => if name.len() > 0 {
            sanitized(name)
        } else {
            sanitized(name_of(l))
        },
        None => sanitized(name_of(l)),
    }
}

/// The name a download is saved under, or `None` where it is refused.
pub open spec fn accepted_name(l: LinkView, suggested: Option<Seq<char>>) -> Option<Seq<char>> {
    if allowed_source(l) && !unsafe_name(wanted_name(l, suggested)) {
        Some(wanted_name(l, suggested))
    } else {
        None
    }
}

/// Whether a page may start a download from `link`.
pub fn is_allowed_source(link: &Link) -> (yes: bool)
    ensures
        yes == allowed_source(link@),
{
    same_text(link.scheme.as_str(), "blob") || same_text(link.scheme.as_str(), "data")
        || is_fetchable_media_host(link)
}

/// Makes a requested name safe to save under; `None` where it is an executable.
pub fn accept_name(requested: &str) -> (name: Option<String>)
    ensures
        text_view(name) == (if unsafe_name(sanitized(requested@)) {
            None
        } else {
            Some(sanitized(requested@))
        }),
        name matches Some(n) ==> confined(n@),
{
    let name = sanitize_filename(requested);
    if is_unsafe_download(name.as_str()) {
        None
    } else {
        Some(name)
    }
}

/// Decides a download that a page starts from `link`. The name that the web
/// view suggests is preferred, as it carries the real extension; where it
/// suggests none, the name comes from the URL. `None` refuses the download:
/// the source is not allowed, or the file is an executable. An accepted name
/// stays in the folder it is saved in.
pub fn download_name(link: &Link, suggested: Option<String>) -> (name: Option<String>)
    ensures
        text_view(name) == accepted_name(link@, text_view(suggested)),
        name matches Some(n) ==> confined(n@),
{
    if !is_allowed_source(link) {
        return None;
    }
    match suggested {
        Some(requested) => {
            if requested.as_str().is_empty() {
                accept_name(filename_from_url(link).as_str())
            } else {
                accept_name(requested.as_str())
            }
        },
        None => accept_name(filename_from_url(link).as_str()),
    }
}

/// Whatever a page asks for, a download that is accepted comes from an allowed
/// source and is saved in the Downloads folder, under a name that is no
/// executable; so is every numbered name that is tried in its place.
pub proof fn accepted_download_is_harmless(l: LinkView, suggested: Option<Seq<char>>, n: nat)
    ensures
        accepted_name(l, suggested) matches Some(name) ==> {
            &&& allowed_source(l)
            &&& confined(candidate(name, n))
            &&& !unsafe_name(candidate(name, n))
        },
{
    if let Some(name) = accepted_name(l, suggested) {
        let requested = if suggested is Some && suggested->0.len() > 0 {
            suggested->0
        } else {
            name_of(l)
        };
        sanitized_name_is_confined(requested);
        candidates_stay_harmless(name, n);
    }
}

/// A page cannot download from anywhere but its own content and the media
/// hosts, whatever name it asks for.
pub proof fn foreign_downloads_are_refused(l: LinkView, suggested: Option<Seq<char>>)
    requires
        l.scheme != "blob"@,
        l.scheme != "data"@,
        !fetchable(l),
    ensures
        accepted_name(l, suggested) is None,
{
}

// ---------------------------------------------------------------------------
// Acceptance, case by case
// ---------------------------------------------------------------------------

/// Whether `l` is content that the page made itself, or media of Messenger's own
/// over HTTPS.
pub open spec fn own_content(l: LinkView) -> bool {
    ||| l.scheme == "blob"@
    ||| l.scheme == "data"@
    ||| l.scheme == "https"@ && (l.host matches Some(host) && {
        ||| in_domain(host, "fbcdn.net"@)
        ||| in_domain(host, "fbsbx.com"@)
        ||| in_domain(host, "facebook.com"@)
        ||| in_domain(host, "messenger.com"@)
    })
}

/// A download of the page's own content is accepted under the name that the web
/// view suggests, made harmless, unless that is an executable; any other is
/// refused.
pub proof fn own_content_is_accepted(l: LinkView, name: Seq<char>)
    requires
        name.len() > 0,
    ensures
        own_content(l) && !unsafe_name(sanitized(name)) ==> accepted_name(l, Some(name)) == Some(
            sanitized(name),
        ),
        !own_content(l) || unsafe_name(sanitized(name)) ==> accepted_name(l, Some(name)) is None,
        allowed_source(l) == own_content(l),
{
    media_comes_from_four_domains(l);
}

/// A harmless suggestion is what the file is called, letter for letter.
pub proof fn a_plain_suggestion_is_the_name(l: LinkView, name: Seq<char>)
    requires
        own_content(l),
        name.len() > 0,
        solid(name[0]),
        solid(name.last()),
        forall|i: int| 0 <= i < name.len() ==> !reserved(#[trigger] name[i]),
        !unsafe_name(name),
    ensures
        accepted_name(l, Some(name)) == Some(name),
{
    own_content_is_accepted(l, name);
    a_plain_name_comes_through(name);
}

/// Without a suggestion, or with an empty one, the file is called as its URL
/// says, as if that had been suggested.
pub proof fn without_a_suggestion_the_url_decides(l: LinkView)
    ensures
        accepted_name(l, None) == accepted_name(l, Some(name_of(l))),
        accepted_name(l, Some(Seq::<char>::empty())) == accepted_name(l, None),
{
    sanitized_name_is_confined(percent_decoded(raw_name(l)));
}

/// The name that a URL gives is what stands behind the last slash of its path,
/// decoded and made harmless.
pub proof fn the_last_segment_is_the_name(l: LinkView, front: Seq<char>, segment: Seq<char>)
    requires
        l.path == front.push('/') + segment,
        l.path[0] == '/',
        segment.len() > 0,
        forall|i: int| 0 <= i < segment.len() ==> #[trigger] segment[i] != '/',
    ensures
        raw_name(l) == segment,
        name_of(l) == sanitized(percent_decoded(segment)),
{
    assert forall|j: int| front.len() < j < l.path.len() implies l.path[j] != '/' by {
        assert(l.path[j] == segment[j - front.len() - 1]);
    }
    lemma_last_position_is(l.path, '/', front.len() as int);
    assert(l.path.skip(front.len() as int + 1) =~= segment);
}

/// A URL without such a segment gives the name "download".
pub proof fn no_segment_no_name(l: LinkView)
    requires
        l.path.len() == 0 || l.path[0] != '/' || l.path.last() == '/',
    ensures
        raw_name(l) == "download"@,
        name_of(l) == "download"@,
{
    reveal_strlit("download");
    let name = "download"@;
    if l.path.len() > 0 && l.path.last() == '/' {
        lemma_last_position_is(l.path, '/', l.path.len() - 1);
        assert(l.path.skip(l.path.len() as int) =~= Seq::<char>::empty());
    }
    assert(raw_name(l) == name);
    assert forall|i: int| !#[trigger] escape_at(name, i) by {
        if 0 <= i < name.len() {
            assert(name[i] != '%');
        }
    }
    incomplete_escapes_are_kept(name);
    a_plain_name_comes_through(name);
}

} // verus!
