//! Notifications: new messages with their senders' avatars, and the unread count.

use vstd::prelude::*;
use vstd::utf8::*;

use crate::encoding::{base64_decode, base64_form, base64_is_injective, base64_text};
use crate::number::{
    decimal, decimal_reads_back, decimal_text, is_digit, parse_int, parsed_int,
    written_number_is_read_back,
};
use crate::text::{
    chars_of, concat_text, padding_behind_is_trimmed, padding_in_front_is_trimmed, same_text,
    starts_with, strip_prefix, text_of, text_without_padding_is_kept, trim, trim_chars,
    white_space, without_prefix, Padding,
};

verus! {

// ---------------------------------------------------------------------------
// Avatars
// ---------------------------------------------------------------------------

/// The size of the largest avatar, in bytes.
pub const MAX_AVATAR_BYTES: usize = 1048576;

/// The size of the largest avatar in base64, in bytes.
pub const MAX_AVATAR_TEXT: usize = MAX_AVATAR_BYTES / 3 * 4 + 4;

/// How every avatar that the page sends begins.
pub const AVATAR_PREFIX: &'static str = "data:image/png;base64,";

/// The eight bytes that every PNG file begins with.
pub open spec fn png_magic() -> Seq<u8> {
    seq![0x89u8, 0x50, 0x4e, 0x47, 0x0d, 0x0a, 0x1a, 0x0a]
}

/// Whether `bytes` may be kept as an avatar: not too large, and a PNG file by
/// its first bytes.
pub open spec fn avatar_image(bytes: Seq<u8>) -> bool {
    bytes.len() <= MAX_AVATAR_BYTES && png_magic().is_prefix_of(bytes)
}

/// The base64 text that `data_url` carries, if it is a base64 PNG data URL and
/// the text is not too long.
pub open spec fn payload(data_url: Seq<char>) -> Option<Seq<char>> {
    match strip_prefix(data_url, AVATAR_PREFIX@) {
        Some(rest) => {
            let text = trim(rest, Padding::WhiteSpace);
            if encode_utf8(text).len() <= MAX_AVATAR_TEXT {
                Some(text)
            } else {
                None
            }
        },
        None => None,
    }
}

/// Whether `png` is the avatar that `data_url` carries.
pub open spec fn carries(data_url: Seq<char>, png: Seq<u8>) -> bool {
    payload(data_url) == Some(base64_text(png)) && avatar_image(png)
}

/// Whether `data_url` carries no avatar at all.
pub open spec fn carries_nothing(data_url: Seq<char>) -> bool {
    forall|png: Seq<u8>| !#[trigger] carries(data_url, png)
}

/// The base64 text that `data_url` carries. The URL comes from the page, so
/// that anything but a base64 PNG data URL is refused, and a text that is too
/// long is refused before it is decoded.
pub fn avatar_payload(data_url: &str) -> (text: Option<String>)
    ensures
        match text {
            Some(t) => payload(data_url@) == Some(t@),
            None => payload(data_url@) is None,
        },
{
    match without_prefix(&chars_of(data_url), &chars_of(AVATAR_PREFIX)) {
        Some(rest) => {
            let text = text_of(&trim_chars(&rest, Padding::WhiteSpace));
            if text.as_str().as_bytes().len() <= MAX_AVATAR_TEXT {
                Some(text)
            } else {
                None
            }
        },
        None => None,
    }
}

/// Whether decoded bytes may be kept as an avatar.
pub fn is_avatar_image(bytes: &Vec<u8>) -> (yes: bool)
    ensures
        yes == avatar_image(bytes@),
{
    if bytes.len() > MAX_AVATAR_BYTES || bytes.len() < 8 {
        return false;
    }
    let yes = bytes[0] == 0x89 && bytes[1] == 0x50 && bytes[2] == 0x4e && bytes[3] == 0x47
        && bytes[4] == 0x0d && bytes[5] == 0x0a && bytes[6] == 0x1a && bytes[7] == 0x0a;
    assert(yes == (bytes@.take(8) =~= png_magic()));
    assert(bytes@.take(8) =~= bytes@.subrange(0, 8));
    yes
}

/// The picture that `data_url` carries, or `None` where there is none to show:
/// not a base64 PNG data URL, too large, not base64, or not a PNG file.
pub fn avatar_png(data_url: &str) -> (png: Option<Vec<u8>>)
    ensures
        match png {
            Some(bytes) => carries(data_url@, bytes@),
            None => carries_nothing(data_url@),
        },
{
    match avatar_payload(data_url) {
        Some(text) => {
            match base64_decode(text.as_str()) {
                Some(bytes) => {
                    if is_avatar_image(&bytes) {
                        Some(bytes)
                    } else {
                        assert forall|other: Seq<u8>| !#[trigger] carries(data_url@, other) by {
                            if carries(data_url@, other) {
                                base64_is_injective(other, bytes@);
                            }
                        }
                        None
                    }
                },
                None => None,
            }
        },
        None => None,
    }
}

/// A data URL carries at most one avatar.
pub proof fn avatar_is_unique(data_url: Seq<char>, a: Seq<u8>, b: Seq<u8>)
    requires
        carries(data_url, a),
        carries(data_url, b),
    ensures
        a == b,
{
    base64_is_injective(a, b);
}

/// Every PNG file of at most [`MAX_AVATAR_BYTES`] bytes that the page sends as a
/// base64 data URL is shown, byte for byte.
pub proof fn every_small_png_is_shown(png: Seq<u8>)
    requires
        avatar_image(png),
    ensures
        carries(AVATAR_PREFIX@ + base64_text(png), png),
{
    let text = base64_text(png);
    let url = AVATAR_PREFIX@ + text;
    base64_form(png);
    assert(url.subrange(0, AVATAR_PREFIX@.len() as int) =~= AVATAR_PREFIX@);
    assert(url.skip(AVATAR_PREFIX@.len() as int) =~= text);
    assert(text.len() > 0);
    assert(trim(text, Padding::WhiteSpace) == text);
    assert(is_ascii_chars(text));
    is_ascii_chars_encode_utf8(text);
}

/// A page cannot pass off anything but a PNG file of bounded size as an avatar:
/// other media types, other contents and larger files carry none.
pub proof fn only_small_pngs_are_shown(data_url: Seq<char>, bytes: Seq<u8>)
    requires
        !starts_with(data_url, AVATAR_PREFIX@) || !png_magic().is_prefix_of(bytes)
            || bytes.len() > MAX_AVATAR_BYTES,
    ensures
        !carries(data_url, bytes),
{
}

// ---------------------------------------------------------------------------
// Messages
// ---------------------------------------------------------------------------

/// A new-message notification that the page asks for.
pub struct NotifyMsg {
    /// The page's handle for the notification, echoed back on a click.
    pub id: u64,
    /// The sender.
    pub title: String,
    /// The preview of the message.
    pub body: String,
    /// The sender's avatar as a PNG data URL, if any.
    pub icon: String,
}

impl Default for NotifyMsg {
    fn default() -> (msg: Self)
        ensures
            msg.id == 0,
            msg.title@ == Seq::<char>::empty(),
            msg.body@ == Seq::<char>::empty(),
            msg.icon@ == Seq::<char>::empty(),
    {
        NotifyMsg { id: 0, title: String::new(), body: String::new(), icon: String::new() }
    }
}

/// A notification as it is shown.
pub struct Notification {
    /// The page's handle for the notification.
    pub id: u64,
    /// The headline.
    pub title: String,
    /// The text.
    pub body: String,
    /// The picture, as the contents of a PNG file.
    pub image: Option<Vec<u8>>,
}

/// The headline of a notification with sender `title`.
pub open spec fn headline(title: Seq<char>) -> Seq<char> {
    if trim(title, Padding::WhiteSpace).len() == 0 {
        "Messenger"@
    } else {
        title
    }
}

/// The notification for a new message: the sender, or "Messenger" where the
/// page names none, the preview, and the avatar where the page sent one.
pub fn compose_notification(msg: NotifyMsg) -> (shown: Notification)
    ensures
        shown.id == msg.id,
        shown.title@ == headline(msg.title@),
        shown.body@ == msg.body@,
        match shown.image {
            Some(png) => carries(msg.icon@, png@),
            None => carries_nothing(msg.icon@),
        },
{
    let image = avatar_png(msg.icon.as_str());
    let blank = trim_chars(&chars_of(msg.title.as_str()), Padding::WhiteSpace).len() == 0;
    let title = if blank {
        "Messenger".to_string()
    } else {
        msg.title
    };
    Notification { id: msg.id, title, body: msg.body, image }
}

/// A notification always has a headline.
pub proof fn headline_is_never_empty(title: Seq<char>)
    ensures
        headline(title).len() > 0,
{
    reveal_strlit("Messenger");
    if title.len() == 0 {
        assert(trim(title, Padding::WhiteSpace).len() == 0);
    }
}

/// Whether a notification with this text shows a text at all: an empty one is
/// left out.
pub fn shows_body(body: &str) -> (yes: bool)
    ensures
        yes == (body@.len() > 0),
{
    chars_of(body).len() > 0
}

/// Whether the action that a notification ended with opens its conversation:
/// any but the one that reports a dismissal.
pub fn is_activation(action: &str) -> (yes: bool)
    ensures
        yes == (action@ != "__closed"@),
{
    !same_text(action, "__closed")
}

// ---------------------------------------------------------------------------
// Unread messages
// ---------------------------------------------------------------------------

/// The number of unread messages that the page reports; 0 where the report is
/// no number.
pub open spec fn reported_unread(report: Seq<char>) -> int {
    match parsed_int(trim(report, Padding::WhiteSpace)) {
        Some(n) => n,
        None => 0,
    }
}

/// The tooltip of the tray icon with `n` unread messages.
pub open spec fn tooltip(app_title: Seq<char>, n: int) -> Seq<char> {
    if n > 0 {
        app_title + " — "@ + decimal(n as nat) + " unread"@
    } else {
        app_title
    }
}

/// The number of unread messages that the page reports.
pub fn unread_count(report: &str) -> (n: i64)
    ensures
        n == reported_unread(report@),
{
    match parse_int(&trim_chars(&chars_of(report), Padding::WhiteSpace)) {
        Some(n) => n,
        None => 0,
    }
}

/// The tooltip of the tray icon after the page has reported its unread messages.
pub fn tray_tooltip(app_title: &str, report: &str) -> (tip: String)
    ensures
        tip@ == tooltip(app_title@, reported_unread(report@)),
{
    let n = unread_count(report);
    if n > 0 {
        let mut tip = concat_text(app_title, " — ");
        tip.append(decimal_text(n as u64).as_str());
        tip.append(" unread");
        tip
    } else {
        app_title.to_string()
    }
}

// ---------------------------------------------------------------------------
// What is shown, case by case
// ---------------------------------------------------------------------------

proof fn lemma_trimmed_away(title: Seq<char>)
    requires
        forall|i: int| 0 <= i < title.len() ==> white_space(#[trigger] title[i]),
    ensures
        trim(title, Padding::WhiteSpace).len() == 0,
    decreases title.len(),
{
    if title.len() > 0 {
        let front = title.drop_last();
        assert forall|i: int| 0 <= i < front.len() implies white_space(#[trigger] front[i]) by {
            assert(front[i] == title[i]);
        }
        lemma_trimmed_away(front);
        assert(title =~= front.push(title.last()));
        padding_behind_is_trimmed(front, title.last(), Padding::WhiteSpace);
    }
}

proof fn lemma_not_trimmed_away(title: Seq<char>, i: int)
    requires
        0 <= i < title.len(),
        !white_space(title[i]),
    ensures
        trim(title, Padding::WhiteSpace).len() > 0,
    decreases title.len(),
{
    if white_space(title[0]) {
        let rest = title.drop_first();
        assert(rest[i - 1] == title[i]);
        lemma_not_trimmed_away(rest, i - 1);
        assert(title =~= seq![title[0]] + rest);
        padding_in_front_is_trimmed(title[0], rest, Padding::WhiteSpace);
    } else if white_space(title.last()) {
        let front = title.drop_last();
        assert(front[i] == title[i]);
        lemma_not_trimmed_away(front, i);
        assert(title =~= front.push(title.last()));
        padding_behind_is_trimmed(front, title.last(), Padding::WhiteSpace);
    } else {
        text_without_padding_is_kept(title, Padding::WhiteSpace);
    }
}

/// A sender is named as the page names them, letter for letter, as long as there
/// is anything but white space in the name.
pub proof fn a_named_sender_is_shown(title: Seq<char>, i: int)
    requires
        0 <= i < title.len(),
        !white_space(title[i]),
    ensures
        headline(title) == title,
{
    lemma_not_trimmed_away(title, i);
}

/// Only where the page names no sender does the app's word stand in.
pub proof fn a_blank_sender_is_replaced(title: Seq<char>)
    requires
        forall|i: int| 0 <= i < title.len() ==> white_space(#[trigger] title[i]),
    ensures
        headline(title) == "Messenger"@,
{
    lemma_trimmed_away(title);
}

/// A data URL carries a picture exactly where its text is the base64 form of a
/// file that starts as PNG files do and is no larger than the limit.
pub proof fn pictures_by_their_contents(text: Seq<char>, png: Seq<u8>)
    requires
        text.len() > 0 ==> !white_space(text[0]) && !white_space(text.last()),
    ensures
        carries("data:image/png;base64,"@ + text, png) == ({
            &&& text == base64_text(png)
            &&& 8 <= png.len() <= 1048576
            &&& png[0] == 0x89 && png[1] == 0x50 && png[2] == 0x4e && png[3] == 0x47
            &&& png[4] == 0x0d && png[5] == 0x0a && png[6] == 0x1a && png[7] == 0x0a
        }),
{
    let url = AVATAR_PREFIX@ + text;
    assert(url.subrange(0, AVATAR_PREFIX@.len() as int) =~= AVATAR_PREFIX@);
    assert(url.skip(AVATAR_PREFIX@.len() as int) =~= text);
    text_without_padding_is_kept(text, Padding::WhiteSpace);
    if png.len() >= 8 {
        assert(png.subrange(0, 8) =~= png.take(8));
        assert(png_magic().is_prefix_of(png) == (png.take(8) =~= png_magic()));
        if png.take(8) == png_magic() {
            assert(png.take(8)[0] == png[0] && png.take(8)[1] == png[1] && png.take(8)[2] == png[2]
                && png.take(8)[3] == png[3] && png.take(8)[4] == png[4] && png.take(8)[5] == png[5]
                && png.take(8)[6] == png[6] && png.take(8)[7] == png[7]);
        }
    }
    if text == base64_text(png) && png.len() <= 1048576 {
        base64_form(png);
        assert(is_ascii_chars(text));
        is_ascii_chars_encode_utf8(text);
    }
}

/// White space around the text of a data URL makes no difference.
pub proof fn white_space_around_a_picture_is_ignored(text: Seq<char>, c: char, png: Seq<u8>)
    requires
        white_space(c),
    ensures
        carries("data:image/png;base64,"@ + (seq![c] + text), png) == carries(
            "data:image/png;base64,"@ + text,
            png,
        ),
        carries("data:image/png;base64,"@ + text.push(c), png) == carries(
            "data:image/png;base64,"@ + text,
            png,
        ),
{
    let p = AVATAR_PREFIX@;
    let n = p.len() as int;
    let front = seq![c] + text;
    let behind = text.push(c);
    assert((p + text).subrange(0, n) =~= p && (p + text).skip(n) =~= text);
    assert((p + front).subrange(0, n) =~= p && (p + front).skip(n) =~= front);
    assert((p + behind).subrange(0, n) =~= p && (p + behind).skip(n) =~= behind);
    padding_in_front_is_trimmed(c, text, Padding::WhiteSpace);
    padding_behind_is_trimmed(text, c, Padding::WhiteSpace);
}

/// Nothing but a base64 PNG data URL carries a picture.
pub proof fn other_urls_carry_no_picture(url: Seq<char>, png: Seq<u8>)
    requires
        url.len() < "data:image/png;base64,"@.len() || url.take(
            "data:image/png;base64,"@.len() as int,
        ) != "data:image/png;base64,"@,
    ensures
        !carries(url, png),
{
    let n = AVATAR_PREFIX@.len() as int;
    if url.len() >= n {
        assert(url.subrange(0, n) =~= url.take(n));
    }
}

/// A number of messages above zero that the page reports is shown behind the
/// app's name; white space around it makes no difference.
pub proof fn a_reported_count_is_shown(app_title: Seq<char>, n: nat)
    requires
        0 < n <= i64::MAX,
    ensures
        tooltip(app_title, reported_unread(decimal(n))) == app_title + " — "@ + decimal(n)
            + " unread"@,
        reported_unread(decimal(n)) == n,
{
    decimal_reads_back(n);
    written_number_is_read_back(n);
    assert(is_digit(decimal(n)[0]));
    assert(is_digit(decimal(n).last()));
    text_without_padding_is_kept(decimal(n), Padding::WhiteSpace);
}

/// White space around a report makes no difference.
pub proof fn white_space_around_a_report_is_ignored(report: Seq<char>, c: char)
    requires
        white_space(c),
    ensures
        reported_unread(seq![c] + report) == reported_unread(report),
        reported_unread(report.push(c)) == reported_unread(report),
{
    padding_in_front_is_trimmed(c, report, Padding::WhiteSpace);
    padding_behind_is_trimmed(report, c, Padding::WhiteSpace);
}

/// With nothing unread, or with a report that is no number, the app's name
/// stands alone.
pub proof fn no_count_is_shown_without_messages(app_title: Seq<char>, n: int, report: Seq<char>)
    ensures
        n <= 0 ==> tooltip(app_title, n) == app_title,
        parsed_int(trim(report, Padding::WhiteSpace)) is None ==> tooltip(
            app_title,
            reported_unread(report),
        ) == app_title,
{
}

/// Any report without white space around it counts as the number it is, and as
/// zero where it is none.
pub proof fn a_report_is_its_number(report: Seq<char>)
    requires
        report.len() > 0 ==> !white_space(report[0]) && !white_space(report.last()),
    ensures
        parsed_int(report) matches Some(n) ==> reported_unread(report) == n,
        parsed_int(report) is None ==> reported_unread(report) == 0,
{
    text_without_padding_is_kept(report, Padding::WhiteSpace);
}

} // verus!
