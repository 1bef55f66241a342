//! File names for downloads: decoding them, making them harmless, telling
//! executables apart and finding a name that is still free.

use vstd::prelude::*;
use vstd::utf8::*;

use crate::number::{decimal, decimal_is_injective, decimal_reads_back, decimal_text, is_digit};
use crate::text::{
    chars_of, concat_text, find_last, is_listed, last_position, lemma_last_position,
    in_small_letters, lemma_last_position_is, listed, lower, lower_char, lower_chars,
    padding_behind_is_trimmed, padding_in_front_is_trimmed, pads, same_text, slice_chars,
    small_letters_are_lower, text_of, text_without_padding_is_kept, trim, trim_chars, trim_end, trim_start,
    white_space, Padding,
};

verus! {

// ---------------------------------------------------------------------------
// Percent-decoding
// ---------------------------------------------------------------------------

/// The value of an ASCII hexadecimal digit.
pub open spec fn hex_value(b: u8) -> Option<u8> {
    if 0x30 <= b <= 0x39 {
        Some((b - 0x30) as u8)
    } else if 0x41 <= b <= 0x46 {
        Some((b - 0x41 + 10) as u8)
    } else if 0x61 <= b <= 0x66 {
        Some((b - 0x61 + 10) as u8)
    } else {
        None
    }
}

/// The byte that the two bytes behind a percent sign stand for: two hexadecimal
/// digits, or a plus sign and one digit.
pub open spec fn escaped_byte(first: u8, second: u8) -> Option<u8> {
    match (hex_value(first), hex_value(second)) {
        (Some(high), Some(low)) => Some((16 * high + low) as u8),
        (None, Some(low)) => if first == 0x2b {
            Some(low)
        } else {
            None
        },
        _ => None,
    }
}

/// Whether `bytes` starts with a percent escape.
pub open spec fn starts_escape(bytes: Seq<u8>) -> bool {
    bytes.len() >= 3 && bytes[0] == 0x25 && escaped_byte(bytes[1], bytes[2]) is Some
}

/// `bytes` with each percent escape, from left to right, replaced by the byte
/// that it stands for.
pub open spec fn decoded(bytes: Seq<u8>) -> Seq<u8>
    decreases bytes.len(),
{
    if bytes.len() == 0 {
        Seq::<u8>::empty()
    } else if starts_escape(bytes) {
        seq![escaped_byte(bytes[1], bytes[2])->0] + decoded(bytes.skip(3))
    } else {
        seq![bytes[0]] + decoded(bytes.skip(1))
    }
}

/// Whether `bytes` holds no percent escape.
pub open spec fn escape_free(bytes: Seq<u8>) -> bool {
    forall|i: int| 0 <= i < bytes.len() ==> !starts_escape(#[trigger] bytes.skip(i))
}

/// What `String::from_utf8_lossy` makes of `bytes`.
pub uninterp spec fn lossy_text(bytes: Seq<u8>) -> Seq<char>;

/// The text that `bytes` are read as: the text they encode where they are valid
/// UTF-8, and text with replacements where they are not.
pub open spec fn readable_text(bytes: Seq<u8>) -> Seq<char> {
    if valid_utf8(bytes) {
        decode_utf8(bytes)
    } else {
        lossy_text(bytes)
    }
}

/// Calls `String::from_utf8_lossy`. Claimed of it: the text depends on the
/// bytes alone, and is the text they encode where they are valid UTF-8.
#[verifier::external_body]
fn from_utf8_lossy(bytes: &Vec<u8>) -> (text: String)
    ensures
        text@ == lossy_text(bytes@),
        valid_utf8(bytes@) ==> text@ == decode_utf8(bytes@),
{
    String::from_utf8_lossy(bytes).into_owned()
}

/// The value of an ASCII hexadecimal digit.
fn hex_digit(b: u8) -> (value: Option<u8>)
    ensures
        value == hex_value(b),
        value matches Some(v) ==> v < 16,
{
    if 0x30 <= b && b <= 0x39 {
        Some(b - 0x30)
    } else if 0x41 <= b && b <= 0x46 {
        Some(b - 0x41 + 10)
    } else if 0x61 <= b && b <= 0x66 {
        Some(b - 0x61 + 10)
    } else {
        None
    }
}

/// The byte that the two bytes behind a percent sign stand for.
fn unescape(first: u8, second: u8) -> (byte: Option<u8>)
    ensures
        byte == escaped_byte(first, second),
{
    match (hex_digit(first), hex_digit(second)) {
        (Some(high), Some(low)) => Some(16 * high + low),
        (None, Some(low)) => if first == 0x2b {
            Some(low)
        } else {
            None
        },
        _ => None,
    }
}

/// What [`percent_decode`] makes of `text`.
pub open spec fn percent_decoded(text: Seq<char>) -> Seq<char> {
    readable_text(decoded(encode_utf8(text)))
}

/// The bytes of `s` with each percent escape replaced by its byte.
pub fn percent_decode_bytes(s: &str) -> (out: Vec<u8>)
    ensures
        out@ == decoded(encode_utf8(s@)),
{
    let bytes = s.as_bytes();
    let mut out: Vec<u8> = Vec::new();
    let mut i: usize = 0;
    assert(bytes@.skip(0) =~= bytes@);
    while i < bytes.len()
        invariant
            i <= bytes.len(),
            out@ + decoded(bytes@.skip(i as int)) == decoded(bytes@),
        decreases bytes.len() - i,
    {
        let ghost rest = bytes@.skip(i as int);
        let ghost before = out@;
        let mut step: usize = 1;
        let mut byte: u8 = bytes[i];
        if byte == 0x25 && bytes.len() - i > 2 {
            if let Some(b) = unescape(bytes[i + 1], bytes[i + 2]) {
                byte = b;
                step = 3;
            }
        }
        out.push(byte);
        i += step;
        assert(rest.skip(step as int) =~= bytes@.skip(i as int));
        assert(decoded(rest) == seq![byte] + decoded(rest.skip(step as int)));
        assert(before + (seq![byte] + decoded(bytes@.skip(i as int))) =~= out@ + decoded(
            bytes@.skip(i as int),
        ));
    }
    assert(out@ + decoded(bytes@.skip(i as int)) =~= out@);
    out
}

/// Minimal percent-decoder for file names. An incomplete or malformed escape is
/// kept as it is, whatever follows it; bytes that are not UTF-8 are replaced.
pub fn percent_decode(s: &str) -> (text: String)
    ensures
        text@ == percent_decoded(s@),
        without_escapes(s@) ==> text@ == s@,
{
    proof {
        if without_escapes(s@) {
            incomplete_escapes_are_kept(s@);
        }
    }
    from_utf8_lossy(&percent_decode_bytes(s))
}

/// Text without a percent escape is decoded to itself.
pub proof fn escape_free_text_is_kept(text: Seq<char>)
    requires
        escape_free(encode_utf8(text)),
    ensures
        percent_decoded(text) == text,
{
    escape_free_bytes_are_kept(encode_utf8(text));
    encode_utf8_valid_utf8(text);
    encode_utf8_decode_utf8(text);
}

/// Bytes without a percent escape are decoded to themselves. In particular, a
/// percent sign too close to the end for an escape stays in place.
pub proof fn escape_free_bytes_are_kept(bytes: Seq<u8>)
    requires
        escape_free(bytes),
    ensures
        decoded(bytes) == bytes,
    decreases bytes.len(),
{
    if bytes.len() > 0 {
        let rest = bytes.skip(1);
        assert forall|i: int| 0 <= i < rest.len() implies !starts_escape(
            #[trigger] rest.skip(i),
        ) by {
            assert(rest.skip(i) =~= bytes.skip(i + 1));
        }
        escape_free_bytes_are_kept(rest);
        assert(bytes.skip(0) =~= bytes);
        assert(seq![bytes[0]] + rest =~= bytes);
    }
}

/// The byte of an ASCII character; for any other, a byte that is part of no
/// escape.
pub open spec fn ascii_byte(c: char) -> u8 {
    if c <= '\u{7f}' {
        c as u8
    } else {
        0x80
    }
}

/// Whether `text` has a percent escape at `i`.
pub open spec fn escape_at(text: Seq<char>, i: int) -> bool {
    &&& 0 <= i < text.len() - 2
    &&& text[i] == '%'
    &&& escaped_byte(ascii_byte(text[i + 1]), ascii_byte(text[i + 2])) is Some
}

/// Whether no percent sign of `text` has the two characters of an escape behind
/// it: each is too close to the end, or is followed by something else.
pub open spec fn without_escapes(text: Seq<char>) -> bool {
    forall|i: int| !#[trigger] escape_at(text, i)
}

/// An ASCII character is one byte; any other consists of bytes beyond ASCII.
proof fn lemma_scalar_bytes(c: char)
    ensures
        c <= '\u{7f}' ==> encode_scalar(c as u32) == seq![c as u8],
        c <= '\u{7f}' && c as u8 == 0x25 ==> c == '%',
        c > '\u{7f}' ==> forall|i: int|
            0 <= i < encode_scalar(c as u32).len() ==> #[trigger] encode_scalar(c as u32)[i] >= 0x80,
        encode_scalar(c as u32).len() > 0,
{
    let v = c as u32;
    if c <= '\u{7f}' {
        assert((v & 0x7f) as u8 == v as u8) by (bit_vector)
            requires
                v <= 0x7f,
        ;
    } else {
        assert(0x80u8 | (v & 0x3f) as u8 >= 0x80) by (bit_vector);
        assert(0x80u8 | ((v >> 6) & 0x3f) as u8 >= 0x80) by (bit_vector);
        assert(0x80u8 | ((v >> 12) & 0x3f) as u8 >= 0x80) by (bit_vector);
        assert(0xc0u8 | ((v >> 6) & 0x1f) as u8 >= 0x80) by (bit_vector);
        assert(0xe0u8 | ((v >> 12) & 0x0f) as u8 >= 0x80) by (bit_vector);
        assert(0xf0u8 | ((v >> 18) & 0x7) as u8 >= 0x80) by (bit_vector);
    }
}

/// The first byte of a text is that of its first character.
proof fn lemma_first_byte(text: Seq<char>)
    requires
        text.len() > 0,
    ensures
        encode_utf8(text).len() > 0,
        text[0] <= '\u{7f}' ==> encode_utf8(text)[0] == text[0] as u8,
        text[0] > '\u{7f}' ==> encode_utf8(text)[0] >= 0x80,
        text[0] <= '\u{7f}' ==> encode_utf8(text).skip(1) == encode_utf8(text.drop_first()),
{
    lemma_scalar_bytes(text[0]);
    if text[0] <= '\u{7f}' {
        assert(encode_utf8(text).skip(1) =~= encode_utf8(text.drop_first()));
    } else {
        assert(encode_utf8(text)[0] == encode_scalar(text[0] as u32)[0]);
    }
}

/// A percent sign at the start of a text has no escape behind it in the bytes
/// where it has none in the characters.
proof fn lemma_first_percent_sign(text: Seq<char>)
    requires
        without_escapes(text),
        text.len() > 0,
        text[0] == '%',
    ensures
        !starts_escape(encode_utf8(text)),
{
    let bytes = encode_utf8(text);
    let rest = text.drop_first();
    lemma_first_byte(text);
    assert(bytes.skip(1) == encode_utf8(rest));
    if bytes.len() >= 3 {
        assert(bytes.skip(1)[0] == bytes[1]);
        assert(rest.len() > 0);
        lemma_first_byte(rest);
        assert(rest[0] == text[1]);
        if bytes[1] < 0x80 {
            let last = rest.drop_first();
            assert(encode_utf8(rest).skip(1) == encode_utf8(last));
            assert(encode_utf8(rest).skip(1)[0] == bytes[2]);
            assert(last.len() > 0);
            lemma_first_byte(last);
            assert(last[0] == text[2]);
            assert(!escape_at(text, 0));
        }
    }
}

/// Bytes without an escape stay so behind bytes none of which is a percent sign
/// that starts one.
proof fn lemma_escape_free_behind(head: Seq<u8>, tail: Seq<u8>)
    requires
        escape_free(tail),
        head.len() > 0,
        forall|i: int| 0 <= i < head.len() ==> #[trigger] head[i] == 0x25 ==> i == 0,
        !starts_escape(head + tail),
    ensures
        escape_free(head + tail),
{
    let bytes = head + tail;
    assert forall|i: int| 0 <= i < bytes.len() implies !starts_escape(#[trigger] bytes.skip(i)) by {
        if i == 0 {
            assert(bytes.skip(0) =~= bytes);
        } else if i < head.len() {
            assert(bytes.skip(i)[0] == head[i]);
        } else {
            assert(bytes.skip(i) =~= tail.skip(i - head.len()));
        }
    }
}

/// Text in which no percent sign has an escape behind it has none in its bytes.
proof fn lemma_without_escapes(text: Seq<char>)
    requires
        without_escapes(text),
    ensures
        escape_free(encode_utf8(text)),
    decreases text.len(),
{
    if text.len() > 0 {
        let rest = text.drop_first();
        assert(without_escapes(rest)) by {
            assert forall|i: int| !#[trigger] escape_at(rest, i) by {
                assert(!escape_at(text, i + 1));
            }
        }
        lemma_without_escapes(rest);
        lemma_scalar_bytes(text[0]);
        lemma_first_byte(text);
        if text[0] == '%' {
            lemma_first_percent_sign(text);
        } else {
            assert(encode_utf8(text)[0] != 0x25);
        }
        assert(encode_scalar(text[0] as u32) + encode_utf8(rest) == encode_utf8(text));
        lemma_escape_free_behind(encode_scalar(text[0] as u32), encode_utf8(rest));
    }
}

/// An incomplete escape is kept as it is written, wherever it stands: at the end
/// of a text, or in front of any character.
pub proof fn incomplete_escapes_are_kept(text: Seq<char>)
    requires
        without_escapes(text),
    ensures
        percent_decoded(text) == text,
{
    lemma_without_escapes(text);
    escape_free_text_is_kept(text);
}

// ---------------------------------------------------------------------------
// Harmless file names
// ---------------------------------------------------------------------------

/// Whether `c` is a path separator, a drive or stream mark, or special to a
/// shell or a file system.
pub open spec fn forbidden(c: char) -> bool {
    ||| c == '/'
    ||| c == '\\'
    ||| c == '\0'
    ||| c == ':'
    ||| c == '<'
    ||| c == '>'
    ||| c == '"'
    ||| c == '|'
    ||| c == '?'
    ||| c == '*'
}

/// `name` with every forbidden character replaced by an underscore.
pub open spec fn masked(name: Seq<char>) -> Seq<char> {
    Seq::new(
        name.len(),
        |i: int|
            if forbidden(name[i]) {
                '_'
            } else {
                name[i]
            },
    )
}

/// The name that [`sanitize_filename`] makes of `name`.
pub open spec fn sanitized(name: Seq<char>) -> Seq<char> {
    let cleaned = trim(trim(masked(name), Padding::WhiteSpace), Padding::Dots);
    if cleaned.len() == 0 {
        "download"@
    } else {
        cleaned
    }
}

/// Whether `name` names a file in the directory it is joined to, and nothing
/// else: it is not empty, has no forbidden character, and neither starts nor
/// ends with a dot.
pub open spec fn confined(name: Seq<char>) -> bool {
    &&& name.len() > 0
    &&& forall|i: int| 0 <= i < name.len() ==> !forbidden(#[trigger] name[i])
    &&& name[0] != '.'
    &&& name.last() != '.'
}

fn is_forbidden(c: char) -> (yes: bool)
    ensures
        yes == forbidden(c),
{
    c == '/' || c == '\\' || c == '\0' || c == ':' || c == '<' || c == '>' || c == '"' || c == '|'
        || c == '?' || c == '*'
}

/// Strips path separators and shell-unsafe characters, so that a name supplied
/// by a page cannot escape the Downloads folder; falls back to "download".
pub fn sanitize_filename(name: &str) -> (clean: String)
    ensures
        clean@ == sanitized(name@),
        confined(clean@),
{
    let chars = chars_of(name);
    let mut marked: Vec<char> = Vec::new();
    let mut i: usize = 0;
    while i < chars.len()
        invariant
            i <= chars.len(),
            marked@.len() == i,
            forall|j: int|
                0 <= j < i ==> marked@[j] == (if forbidden(chars@[j]) {
                    '_'
                } else {
                    chars@[j]
                }),
        decreases chars.len() - i,
    {
        if is_forbidden(chars[i]) {
            marked.push('_');
        } else {
            marked.push(chars[i]);
        }
        i += 1;
    }
    assert(marked@ =~= masked(name@));
    proof {
        sanitized_name_is_confined(name@);
    }
    let cleaned = trim_chars(&trim_chars(&marked, Padding::WhiteSpace), Padding::Dots);
    if cleaned.len() == 0 {
        "download".to_string()
    } else {
        text_of(&cleaned)
    }
}

/// Trimming at the start takes characters off the front, and leaves no padding
/// there.
proof fn lemma_trim_start(text: Seq<char>, padding: Padding) -> (k: int)
    ensures
        0 <= k <= text.len(),
        trim_start(text, padding) == text.skip(k),
        text.skip(k).len() > 0 ==> !pads(text.skip(k)[0], padding),
    decreases text.len(),
{
    if text.len() > 0 && pads(text[0], padding) {
        let k = lemma_trim_start(text.drop_first(), padding);
        assert(text.drop_first().skip(k) =~= text.skip(k + 1));
        k + 1
    } else {
        assert(text.skip(0) =~= text);
        0
    }
}

/// Trimming at the end takes characters off the back, and leaves no padding
/// there.
proof fn lemma_trim_end(text: Seq<char>, padding: Padding) -> (k: int)
    ensures
        0 <= k <= text.len(),
        trim_end(text, padding) == text.take(k),
        k > 0 ==> !pads(text[k - 1], padding),
    decreases text.len(),
{
    if text.len() > 0 && pads(text.last(), padding) {
        let k = lemma_trim_end(text.drop_last(), padding);
        assert(text.drop_last().take(k) =~= text.take(k));
        k
    } else {
        assert(text.take(text.len() as int) =~= text);
        text.len() as int
    }
}

/// A trimmed text is a part of the text, and has no padding at its ends.
proof fn lemma_trim(text: Seq<char>, padding: Padding)
    ensures
        forall|i: int|
            0 <= i < trim(text, padding).len() ==> text.contains(#[trigger] trim(text, padding)[i]),
        trim(text, padding).len() > 0 ==> !pads(trim(text, padding)[0], padding) && !pads(
            trim(text, padding).last(),
            padding,
        ),
{
    let a = lemma_trim_start(text, padding);
    let rest = text.skip(a);
    let b = lemma_trim_end(rest, padding);
    let t = trim(text, padding);
    assert(t == rest.take(b));
    assert forall|i: int| 0 <= i < t.len() implies text.contains(#[trigger] t[i]) by {
        assert(t[i] == text[a + i]);
    }
}

/// Whatever a page calls a file, its sanitized name stays in the directory it
/// is joined to: it is no path, no drive, and not the directory or its parent.
pub proof fn sanitized_name_is_confined(name: Seq<char>)
    ensures
        confined(sanitized(name)),
        sanitized(name) != "."@,
        sanitized(name) != ".."@,
{
    reveal_strlit("download");
    reveal_strlit(".");
    reveal_strlit("..");
    let m = masked(name);
    let t = trim(m, Padding::WhiteSpace);
    let cleaned = trim(t, Padding::Dots);
    lemma_trim(m, Padding::WhiteSpace);
    lemma_trim(t, Padding::Dots);
    assert forall|i: int| 0 <= i < cleaned.len() implies !forbidden(#[trigger] cleaned[i]) by {
        assert(t.contains(cleaned[i]));
        let j = choose|j: int| 0 <= j < t.len() && t[j] == cleaned[i];
        assert(m.contains(t[j]));
    }
    assert("."@[0] == '.');
    assert(".."@[0] == '.');
}

/// A name that is harmless already is left alone.
pub proof fn harmless_name_is_kept(name: Seq<char>)
    requires
        confined(name),
        !pads(name[0], Padding::WhiteSpace),
        !pads(name.last(), Padding::WhiteSpace),
    ensures
        sanitized(name) == name,
{
    assert(masked(name) =~= name);
    reveal_with_fuel(trim_start, 2);
    reveal_with_fuel(trim_end, 2);
}

// ---------------------------------------------------------------------------
// Executables
// ---------------------------------------------------------------------------

/// What follows the last dot of `name`, if it has one.
pub open spec fn extension(name: Seq<char>) -> Option<Seq<char>> {
    let dot = last_position(name, '.');
    if dot >= 0 {
        Some(name.skip(dot + 1))
    } else {
        None
    }
}

/// The extensions of directly executable files, in small letters.
pub open spec fn executable_extensions() -> Seq<&'static str> {
    seq![
        "exe",
        "msi",
        "bat",
        "cmd",
        "com",
        "scr",
        "ps1",
        "vbs",
        "vbe",
        "js",
        "jse",
        "wsf",
        "wsh",
        "hta",
        "dmg",
        "pkg",
        "app",
        "command",
        "scpt",
        "sh",
        "bash",
        "zsh",
        "run",
        "bin",
        "jar",
        "jnlp",
        "deb",
        "rpm",
        "appimage",
    ]
}

/// Whether `name` has the extension of a directly executable file.
pub open spec fn unsafe_name(name: Seq<char>) -> bool {
    extension(name) matches Some(e) && listed(executable_extensions(), lower(e))
}

fn executable_list() -> (list: Vec<&'static str>)
    ensures
        list@ == executable_extensions(),
{
    let list: Vec<&'static str> = vec![
        "exe",
        "msi",
        "bat",
        "cmd",
        "com",
        "scr",
        "ps1",
        "vbs",
        "vbe",
        "js",
        "jse",
        "wsf",
        "wsh",
        "hta",
        "dmg",
        "pkg",
        "app",
        "command",
        "scpt",
        "sh",
        "bash",
        "zsh",
        "run",
        "bin",
        "jar",
        "jnlp",
        "deb",
        "rpm",
        "appimage",
    ];
    assert(list@ =~= executable_extensions());
    list
}

/// True for file names whose extension is a directly executable type, so that
/// a page cannot quietly drop malware in Downloads. Media, documents and
/// archives are all allowed.
pub fn is_unsafe_download(name: &str) -> (yes: bool)
    ensures
        yes == unsafe_name(name@),
{
    let chars = chars_of(name);
    match find_last(&chars, '.') {
        Some(dot) => {
            proof {
                lemma_last_position(chars@, '.');
            }
            let tail = slice_chars(&chars, dot + 1, chars.len());
            assert(tail@ =~= chars@.skip(dot + 1));
            is_listed(&executable_list(), &lower_chars(&tail))
        },
        None => false,
    }
}

/// Names that differ only in the case of ASCII letters are equally unsafe.
pub proof fn unsafe_name_ignores_case(a: Seq<char>, b: Seq<char>)
    requires
        lower(a) == lower(b),
    ensures
        unsafe_name(a) == unsafe_name(b),
{
    assert(a.len() == lower(a).len() && b.len() == lower(b).len());
    assert forall|i: int| 0 <= i < a.len() implies lower_char(#[trigger] a[i]) == lower_char(
        b[i],
    ) by {
        assert(lower(a)[i] == lower_char(a[i]));
        assert(lower(b)[i] == lower_char(b[i]));
    }
    let dot = last_position(a, '.');
    lemma_last_position(a, '.');
    assert forall|j: int| dot < j < b.len() implies b[j] != '.' by {
        assert(a[j] != '.');
    }
    if dot >= 0 {
        assert(lower_char(a[dot]) == '.');
    }
    lemma_last_position_is(b, '.', dot);
    if dot >= 0 {
        assert(lower(a.skip(dot + 1)) =~= lower(b.skip(dot + 1)));
    }
}

/// Only what follows the last dot decides: whatever stands before it, and
/// whatever other dots are in it, make no difference.
pub proof fn only_the_last_extension_counts(front: Seq<char>, tail: Seq<char>)
    requires
        forall|i: int| 0 <= i < tail.len() ==> #[trigger] tail[i] != '.',
    ensures
        unsafe_name(front.push('.') + tail) == listed(executable_extensions(), lower(tail)),
{
    let name = front.push('.') + tail;
    assert forall|j: int| front.len() < j < name.len() implies name[j] != '.' by {
        assert(name[j] == tail[j - front.len() - 1]);
    }
    lemma_last_position_is(name, '.', front.len() as int);
    assert(name.skip(front.len() as int + 1) =~= tail);
}

/// A name without a dot is never unsafe.
pub proof fn name_without_dot_is_safe(name: Seq<char>)
    requires
        forall|i: int| 0 <= i < name.len() ==> #[trigger] name[i] != '.',
    ensures
        !unsafe_name(name),
{
    lemma_last_position_is(name, '.', -1);
}

// ---------------------------------------------------------------------------
// Free names
// ---------------------------------------------------------------------------

/// How many names are tried before the search gives up: the name itself, and
/// the numbers from 1 on.
pub const NAME_ATTEMPTS: u64 = 10000;

/// Whether `name`, as the last component of a path, names no file: it is empty,
/// or the directory itself or its parent.
pub open spec fn nameless(name: Seq<char>) -> bool {
    name.len() == 0 || name == "."@ || name == ".."@
}

/// Where the extension of a file starts, dot included: at the last dot, unless
/// that is the first character. The length of the name where it has none.
pub open spec fn suffix_start(name: Seq<char>) -> int {
    let dot = last_position(name, '.');
    if dot > 0 {
        dot
    } else {
        name.len() as int
    }
}

/// `name` without its extension; "download" where it names no file.
pub open spec fn stem(name: Seq<char>) -> Seq<char> {
    if nameless(name) {
        "download"@
    } else {
        name.take(suffix_start(name))
    }
}

/// The extension of `name`, dot included; empty where it has none.
pub open spec fn suffix(name: Seq<char>) -> Seq<char> {
    if nameless(name) {
        Seq::<char>::empty()
    } else {
        name.skip(suffix_start(name))
    }
}

/// The `n`-th name that is tried in place of `name`: `name` itself, then its
/// stem with " (n)" and its extension behind it.
pub open spec fn candidate(name: Seq<char>, n: nat) -> Seq<char> {
    if n == 0 {
        name
    } else {
        stem(name) + " ("@ + decimal(n) + ")"@ + suffix(name)
    }
}

/// What to do next in the search for a free name.
#[derive(Debug)]
pub enum PathStep {
    /// Look whether a file of this name exists.
    Probe(String),
    /// Use this name.
    Use(String),
}

/// The model of a [`PathStep`].
pub enum PathStepView {
    /// Look whether a file of this name exists.
    Probe(Seq<char>),
    /// Use this name.
    Use(Seq<char>),
}

impl View for PathStep {
    type V = PathStepView;

    open spec fn view(&self) -> PathStepView {
        match self {
            PathStep::Probe(name) => PathStepView::Probe(name@),
            PathStep::Use(name) => PathStepView::Use(name@),
        }
    }
}

/// The step after name number `attempt` was found to be `taken` or free.
pub open spec fn next_step(name: Seq<char>, attempt: nat, taken: bool) -> PathStepView {
    if !taken {
        PathStepView::Use(candidate(name, attempt))
    } else if attempt + 1 < NAME_ATTEMPTS {
        PathStepView::Probe(candidate(name, attempt + 1))
    } else {
        PathStepView::Use(name)
    }
}

/// `name` without its extension, and the extension.
fn stem_and_suffix(name: &str) -> (parts: (String, String))
    ensures
        parts.0@ == stem(name@),
        parts.1@ == suffix(name@),
{
    let chars = chars_of(name);
    if chars.len() == 0 || same_text(name, ".") || same_text(name, "..") {
        return ("download".to_string(), String::new());
    }
    let at: usize = match find_last(&chars, '.') {
        Some(dot) => if dot > 0 {
            dot
        } else {
            chars.len()
        },
        None => chars.len(),
    };
    proof {
        lemma_last_position(chars@, '.');
    }
    let front = slice_chars(&chars, 0, at);
    let back = slice_chars(&chars, at, chars.len());
    assert(front@ =~= name@.take(at as int));
    assert(back@ =~= name@.skip(at as int));
    (text_of(&front), text_of(&back))
}

/// The `n`-th name that is tried in place of `name`.
fn candidate_text(name: &str, n: u64) -> (text: String)
    ensures
        text@ == candidate(name@, n as nat),
{
    if n == 0 {
        return name.to_string();
    }
    let (front, back) = stem_and_suffix(name);
    let mut text = concat_text(front.as_str(), " (");
    text.append(decimal_text(n).as_str());
    text.append(")");
    text.append(back.as_str());
    text
}

/// Avoids clobbering an existing file by appending " (n)" to its stem.
/// `file_name` is the last component of the wanted path. Told whether a file
/// with name number `attempt` in its place exists, says which name to look for
/// next, or which one to use. The search starts with number 0, the name itself,
/// and falls back to it when every number is taken.
pub fn unique_path(file_name: &str, attempt: u64, taken: bool) -> (step: PathStep)
    ensures
        step@ == next_step(file_name@, attempt as nat, taken),
{
    if !taken {
        PathStep::Use(candidate_text(file_name, attempt))
    } else if attempt < NAME_ATTEMPTS - 1 {
        PathStep::Probe(candidate_text(file_name, attempt + 1))
    } else {
        PathStep::Use(file_name.to_string())
    }
}

/// The name that the search for `name` ends with from number `attempt` on, in a
/// directory where the names in `existing` are taken.
pub open spec fn settled(name: Seq<char>, attempt: nat, existing: Set<Seq<char>>) -> Seq<char>
    decreases NAME_ATTEMPTS - attempt,
{
    match next_step(name, attempt, existing.contains(candidate(name, attempt))) {
        PathStepView::Use(found) => found,
        PathStepView::Probe(_) => if attempt < NAME_ATTEMPTS {
            settled(name, attempt + 1, existing)
        } else {
            name
        },
    }
}

proof fn lemma_settled(name: Seq<char>, attempt: nat, existing: Set<Seq<char>>) -> (n: nat)
    requires
        attempt < NAME_ATTEMPTS,
    ensures
        attempt <= n <= NAME_ATTEMPTS,
        forall|k: nat| attempt <= k < n ==> existing.contains(#[trigger] candidate(name, k)),
        n < NAME_ATTEMPTS ==> settled(name, attempt, existing) == candidate(name, n)
            && !existing.contains(candidate(name, n)),
        n == NAME_ATTEMPTS ==> settled(name, attempt, existing) == name,
    decreases NAME_ATTEMPTS - attempt,
{
    if !existing.contains(candidate(name, attempt)) {
        attempt
    } else if attempt + 1 < NAME_ATTEMPTS {
        let n = lemma_settled(name, attempt + 1, existing);
        assert forall|k: nat| attempt <= k < n implies existing.contains(
            #[trigger] candidate(name, k),
        ) by {
            if k > attempt {
                assert(attempt + 1 <= k);
            }
        }
        n
    } else {
        assert forall|k: nat| attempt <= k < NAME_ATTEMPTS implies existing.contains(
            #[trigger] candidate(name, k),
        ) by {
            assert(k == attempt);
        }
        NAME_ATTEMPTS as nat
    }
}

/// The search never clobbers a file as long as one of its names is free: it
/// ends with the first name in order that does not exist, and with the name it
/// started from only where every one exists.
pub proof fn search_finds_the_first_free_name(name: Seq<char>, existing: Set<Seq<char>>)
    ensures
        (exists|n: nat|
            {
                &&& n < NAME_ATTEMPTS
                &&& settled(name, 0, existing) == #[trigger] candidate(name, n)
                &&& !existing.contains(candidate(name, n))
                &&& forall|k: nat| k < n ==> existing.contains(#[trigger] candidate(name, k))
            }) || (settled(name, 0, existing) == name && forall|k: nat|
            k < NAME_ATTEMPTS ==> existing.contains(#[trigger] candidate(name, k))),
{
    let n = lemma_settled(name, 0, existing);
    if n < NAME_ATTEMPTS {
        assert(settled(name, 0, existing) == candidate(name, n));
    }
}

/// The length of a numbered name, and where its number stands.
proof fn lemma_candidate(name: Seq<char>, n: nat)
    requires
        n > 0,
    ensures
        candidate(name, n).len() == stem(name).len() + 3 + decimal(n).len() + suffix(name).len(),
        candidate(name, n).subrange(
            stem(name).len() as int + 2,
            stem(name).len() as int + 2 + decimal(n).len(),
        ) == decimal(n),
        name.len() <= stem(name).len() + suffix(name).len(),
{
    reveal_strlit(" (");
    reveal_strlit(")");
    reveal_strlit("download");
    reveal_strlit(".");
    reveal_strlit("..");
    lemma_last_position(name, '.');
    assert(candidate(name, n).subrange(
        stem(name).len() as int + 2,
        stem(name).len() as int + 2 + decimal(n).len(),
    ) =~= decimal(n));
}

/// No name is tried twice.
pub proof fn candidates_are_distinct(name: Seq<char>, a: nat, b: nat)
    requires
        a != b,
    ensures
        candidate(name, a) != candidate(name, b),
{
    if a > 0 {
        lemma_candidate(name, a);
    }
    if b > 0 {
        lemma_candidate(name, b);
    }
    if a > 0 && b > 0 {
        decimal_is_injective(a, b);
    }
}

/// Files that are saved under the same name one after the other are numbered in
/// order: with the first `k` names taken and no other, the search ends with
/// number `k`.
pub proof fn repeated_saves_count_up(name: Seq<char>, k: nat, existing: Set<Seq<char>>)
    requires
        k < NAME_ATTEMPTS,
        forall|n: nat|
            n < NAME_ATTEMPTS ==> existing.contains(#[trigger] candidate(name, n)) == (n < k),
    ensures
        settled(name, 0, existing) == candidate(name, k),
{
    let n = lemma_settled(name, 0, existing);
    if n > k {
        assert(existing.contains(candidate(name, k)));
    }
    assert(n <= k);
    assert(!existing.contains(candidate(name, n)));
}

/// The characters that numbering adds are a space, brackets and digits.
proof fn lemma_added_characters(name: Seq<char>, n: nat, j: int)
    requires
        n > 0,
        stem(name).len() <= j < stem(name).len() + 3 + decimal(n).len(),
    ensures
        ({
            let c = candidate(name, n)[j];
            c == ' ' || c == '(' || c == ')' || is_digit(c)
        }),
{
    reveal_strlit(" (");
    reveal_strlit(")");
    decimal_reads_back(n);
    let at = stem(name).len() as int;
    let c = candidate(name, n);
    if j < at + 2 {
        assert(c[j] == " ("@[j - at]);
    } else if j < at + 2 + decimal(n).len() {
        assert(c[j] == decimal(n)[j - at - 2]);
        assert(is_digit(decimal(n)[j - at - 2]));
    } else {
        assert(c[j] == ")"@[0]);
    }
}

/// Numbering a name, whatever it is, does not change its extension.
pub proof fn candidates_keep_the_suffix(name: Seq<char>, n: nat)
    ensures
        suffix(candidate(name, n)) == suffix(name),
{
    if n > 0 {
        reveal_strlit("download");
        reveal_strlit(".");
        reveal_strlit("..");
        lemma_candidate(name, n);
        decimal_reads_back(n);
        lemma_last_position(name, '.');
        let front = stem(name);
        let back = suffix(name);
        let c = candidate(name, n);
        let at = front.len() as int;
        let added = 3 + decimal(n).len();
        assert(c.len() > 2);
        assert(!nameless(c));
        assert forall|j: int| at <= j < at + added implies c[j] != '.' by {
            lemma_added_characters(name, n, j);
        }
        assert forall|j: int| at + added <= j < c.len() implies c[j] == back[j - at - added] by {}
        if back.len() > 0 {
            let dot = last_position(name, '.');
            assert(back[0] == name[dot]);
            assert forall|j: int| at + added < j < c.len() implies c[j] != '.' by {
                assert(back[j - at - added] == name[dot + j - at - added]);
            }
            lemma_last_position_is(c, '.', at + added);
            assert(c.skip(at + added) =~= back);
        } else {
            lemma_last_position(c, '.');
            assert forall|j: int| 0 < j < c.len() implies c[j] != '.' by {
                if j < at {
                    assert(c[j] == front[j]);
                }
            }
            assert(c.skip(c.len() as int) =~= back);
        }
    }
}

/// Numbering a harmless name gives a harmless name, and an executable only where
/// the name that was asked for is one.
pub proof fn candidates_stay_harmless(name: Seq<char>, n: nat)
    requires
        confined(name),
    ensures
        confined(candidate(name, n)),
        unsafe_name(candidate(name, n)) == unsafe_name(name),
{
    if n > 0 {
        reveal_strlit(".");
        reveal_strlit("..");
        lemma_candidate(name, n);
        decimal_reads_back(n);
        lemma_last_position(name, '.');
        assert("."@[0] == '.');
        assert(".."@[0] == '.');
        assert(!nameless(name));
        let at = suffix_start(name);
        let c = candidate(name, n);
        let added = 3 + decimal(n).len();
        assert forall|i: int| 0 <= i < c.len() implies !forbidden(#[trigger] c[i]) by {
            if i < at {
                assert(c[i] == name[i]);
            } else if i < at + added {
                lemma_added_characters(name, n, i);
            } else {
                assert(c[i] == name[i - added]);
            }
        }
        assert(c[0] == name[0]);
        assert(c.last() != '.') by {
            if at < name.len() {
                assert(c.last() == name.last());
            } else {
                lemma_added_characters(name, n, c.len() - 1);
            }
        }
        assert forall|j: int| at <= j < at + added implies c[j] != '.' by {
            lemma_added_characters(name, n, j);
        }
        let dot = last_position(name, '.');
        if dot > 0 {
            assert(c[at + added] == name[at]);
            assert forall|j: int| at + added < j < c.len() implies c[j] != '.' by {
                assert(c[j] == name[j - added]);
            }
            lemma_last_position_is(c, '.', at + added);
            assert(c.skip(at + added + 1) =~= name.skip(dot + 1));
        } else {
            assert(dot == -1);
            assert forall|j: int| -1 < j < c.len() implies c[j] != '.' by {
                if j < at {
                    assert(c[j] == name[j]);
                }
            }
            lemma_last_position_is(c, '.', -1);
        }
    }
}

// ---------------------------------------------------------------------------
// What becomes of a name, character by character
// ---------------------------------------------------------------------------

/// Whether `c` has a meaning of its own in a path or to a shell.
pub open spec fn reserved(c: char) -> bool {
    c == '/' || c == '\\' || c == '\0' || c == ':' || c == '<' || c == '>' || c == '"' || c == '|'
        || c == '?' || c == '*'
}

/// Whether `c` may stand at an end of a sanitized name.
pub open spec fn solid(c: char) -> bool {
    !white_space(c) && c != '.'
}

/// A name that starts and ends with a solid character keeps its length, and each
/// character that is not reserved; the reserved ones become underscores.
pub proof fn sanitizing_replaces_reserved_characters(name: Seq<char>, i: int)
    requires
        0 <= i < name.len(),
        solid(name[0]),
        solid(name.last()),
    ensures
        sanitized(name).len() == name.len(),
        sanitized(name)[i] == (if reserved(name[i]) {
            '_'
        } else {
            name[i]
        }),
{
    let m = masked(name);
    assert(m[0] == name[0] || m[0] == '_');
    assert(m.last() == name.last() || m.last() == '_');
    text_without_padding_is_kept(m, Padding::WhiteSpace);
    text_without_padding_is_kept(m, Padding::Dots);
}

/// White space around a name makes no difference.
pub proof fn white_space_around_a_name_is_dropped(name: Seq<char>, c: char)
    requires
        white_space(c),
    ensures
        sanitized(seq![c] + name) == sanitized(name),
        sanitized(name.push(c)) == sanitized(name),
{
    assert(masked(seq![c] + name) =~= seq![c] + masked(name));
    assert(masked(name.push(c)) =~= masked(name).push(c));
    padding_in_front_is_trimmed(c, masked(name), Padding::WhiteSpace);
    padding_behind_is_trimmed(masked(name), c, Padding::WhiteSpace);
}

/// Dots around a name make no difference.
pub proof fn dots_around_a_name_are_dropped(name: Seq<char>)
    requires
        name.len() > 0,
        !white_space(name[0]),
        !white_space(name.last()),
    ensures
        sanitized(seq!['.'] + name) == sanitized(name),
        sanitized(name.push('.')) == sanitized(name),
{
    let m = masked(name);
    assert(m[0] == name[0] || m[0] == '_');
    assert(m.last() == name.last() || m.last() == '_');
    let before = seq!['.'] + m;
    let behind = m.push('.');
    assert(masked(seq!['.'] + name) =~= before);
    assert(masked(name.push('.')) =~= behind);
    assert(before.last() == m.last());
    assert(behind[0] == m[0]);
    text_without_padding_is_kept(m, Padding::WhiteSpace);
    text_without_padding_is_kept(before, Padding::WhiteSpace);
    text_without_padding_is_kept(behind, Padding::WhiteSpace);
    padding_in_front_is_trimmed('.', m, Padding::Dots);
    padding_behind_is_trimmed(m, '.', Padding::Dots);
}

/// What is left of a name is "download" where nothing is left of it: where it is
/// made of dots alone, or of white space alone.
pub proof fn a_name_of_nothing_is_download(name: Seq<char>)
    requires
        (forall|i: int| 0 <= i < name.len() ==> #[trigger] name[i] == '.') || (forall|i: int|
            0 <= i < name.len() ==> white_space(#[trigger] name[i])),
    ensures
        sanitized(name) == "download"@,
    decreases name.len(),
{
    if name.len() == 0 {
        assert(masked(name) =~= Seq::<char>::empty());
    } else {
        let front = name.drop_last();
        assert forall|i: int| 0 <= i < front.len() implies #[trigger] front[i] == name[i] by {}
        assert(name =~= front.push(name.last()));
        a_name_of_nothing_is_download(front);
        if white_space(name.last()) {
            white_space_around_a_name_is_dropped(front, name.last());
        } else if front.len() > 0 {
            assert(front[0] == '.');
            assert(front.last() == '.');
            dots_around_a_name_are_dropped(front);
        } else {
            assert(masked(name) =~= seq!['.']);
            text_without_padding_is_kept(masked(name), Padding::WhiteSpace);
            assert(seq!['.'] =~= seq!['.'] + Seq::<char>::empty());
            padding_in_front_is_trimmed('.', Seq::<char>::empty(), Padding::Dots);
        }
    }
}

/// A harmless name comes through as it is: one without reserved characters that
/// starts and ends with a solid one.
pub proof fn a_plain_name_comes_through(name: Seq<char>)
    requires
        name.len() > 0,
        solid(name[0]),
        solid(name.last()),
        forall|i: int| 0 <= i < name.len() ==> !reserved(#[trigger] name[i]),
    ensures
        sanitized(name) == name,
{
    sanitizing_replaces_reserved_characters(name, 0);
    assert forall|i: int| 0 <= i < name.len() implies sanitized(name)[i] == name[i] by {
        sanitizing_replaces_reserved_characters(name, i);
    }
    assert(sanitized(name) =~= name);
}

/// Whether `ext`, in small letters, is the extension of a program, an installer
/// or a script.
pub open spec fn runs(ext: Seq<char>) -> bool {
    ||| ext == "exe"@ || ext == "msi"@ || ext == "bat"@ || ext == "cmd"@ || ext == "com"@
    ||| ext == "scr"@ || ext == "ps1"@ || ext == "vbs"@ || ext == "vbe"@ || ext == "js"@
    ||| ext == "jse"@ || ext == "wsf"@ || ext == "wsh"@ || ext == "hta"@ || ext == "dmg"@
    ||| ext == "pkg"@ || ext == "app"@ || ext == "command"@ || ext == "scpt"@ || ext == "sh"@
    ||| ext == "bash"@ || ext == "zsh"@ || ext == "run"@ || ext == "bin"@ || ext == "jar"@
    ||| ext == "jnlp"@ || ext == "deb"@ || ext == "rpm"@ || ext == "appimage"@
}

proof fn lemma_runs(ext: Seq<char>)
    ensures
        listed(executable_extensions(), ext) == runs(ext),
{
    let list = executable_extensions();
    if runs(ext) {
        assert(list[0]@ == ext || list[1]@ == ext || list[2]@ == ext || list[3]@ == ext || list[4]@
            == ext || list[5]@ == ext || list[6]@ == ext || list[7]@ == ext || list[8]@ == ext
            || list[9]@ == ext || list[10]@ == ext || list[11]@ == ext || list[12]@ == ext
            || list[13]@ == ext || list[14]@ == ext || list[15]@ == ext || list[16]@ == ext
            || list[17]@ == ext || list[18]@ == ext || list[19]@ == ext || list[20]@ == ext
            || list[21]@ == ext || list[22]@ == ext || list[23]@ == ext || list[24]@ == ext
            || list[25]@ == ext || list[26]@ == ext || list[27]@ == ext || list[28]@ == ext);
    }
}

/// A file is taken for an executable by what follows its last dot, in whatever
/// case, and by nothing else: the extensions of programs, installers and scripts
/// are refused, and all others are allowed.
pub proof fn executables_by_extension(front: Seq<char>, tail: Seq<char>, small: Seq<char>)
    requires
        forall|i: int| 0 <= i < tail.len() ==> #[trigger] tail[i] != '.',
        in_small_letters(tail, small),
    ensures
        unsafe_name(front.push('.') + tail) == runs(small),
{
    small_letters_are_lower(tail, small);
    only_the_last_extension_counts(front, tail);
    lemma_runs(small);
}

// ---------------------------------------------------------------------------
// Escapes, byte by byte
// ---------------------------------------------------------------------------

/// The hexadecimal digit with value `n`, as a capital or a small letter.
pub open spec fn nibble(n: int, capital: bool) -> u8 {
    if n < 10 {
        (0x30 + n) as u8
    } else if capital {
        (0x37 + n) as u8
    } else {
        (0x57 + n) as u8
    }
}

/// `b` as a percent escape.
pub open spec fn escape_of(b: u8, capital: bool) -> Seq<u8> {
    seq![0x25u8, nibble(b as int / 16, capital), nibble(b as int % 16, capital)]
}

/// `bytes` with each byte written as a percent escape.
pub open spec fn percent_encoded(bytes: Seq<u8>, capital: bool) -> Seq<u8>
    decreases bytes.len(),
{
    if bytes.len() == 0 {
        Seq::empty()
    } else {
        escape_of(bytes[0], capital) + percent_encoded(bytes.skip(1), capital)
    }
}

proof fn lemma_nibbles(b: u8, capital: bool)
    ensures
        escaped_byte(nibble(b as int / 16, capital), nibble(b as int % 16, capital)) == Some(b),
        nibble(b as int / 16, capital) < 0x80,
        nibble(b as int % 16, capital) < 0x80,
{
    let h = b as int / 16;
    let l = b as int % 16;
    assert(hex_value(nibble(h, capital)) == Some(h as u8));
    assert(hex_value(nibble(l, capital)) == Some(l as u8));
}

/// An escape stands for its byte, whatever follows.
pub proof fn an_escape_stands_for_its_byte(b: u8, capital: bool, rest: Seq<u8>)
    ensures
        decoded(escape_of(b, capital) + rest) == seq![b] + decoded(rest),
{
    lemma_nibbles(b, capital);
    let bytes = escape_of(b, capital) + rest;
    assert(bytes.skip(3) =~= rest);
}

/// Any byte but a percent sign stands for itself, whatever follows.
pub proof fn a_plain_byte_stands_for_itself(b: u8, rest: Seq<u8>)
    requires
        b != 0x25,
    ensures
        decoded(seq![b] + rest) == seq![b] + decoded(rest),
{
    assert((seq![b] + rest).skip(1) =~= rest);
}

/// Whether `b` is a hexadecimal digit.
pub open spec fn is_hex_digit(b: u8) -> bool {
    0x30 <= b <= 0x39 || 0x41 <= b <= 0x46 || 0x61 <= b <= 0x66
}

/// A percent sign stands for itself where no two hexadecimal digits, and no plus
/// sign and digit, follow.
pub proof fn a_lone_percent_sign_stands_for_itself(rest: Seq<u8>)
    requires
        rest.len() < 2 || !is_hex_digit(rest[1]) || (!is_hex_digit(rest[0]) && rest[0] != 0x2b),
    ensures
        decoded(seq![0x25u8] + rest) == seq![0x25u8] + decoded(rest),
{
    let bytes = seq![0x25u8] + rest;
    assert(bytes.skip(1) =~= rest);
    if rest.len() >= 2 {
        assert(bytes[1] == rest[0]);
        assert(bytes[2] == rest[1]);
    }
}

/// Whatever bytes are written as escapes, those bytes are read back.
pub proof fn escapes_are_read_back(bytes: Seq<u8>, capital: bool)
    ensures
        decoded(percent_encoded(bytes, capital)) == bytes,
    decreases bytes.len(),
{
    if bytes.len() > 0 {
        escapes_are_read_back(bytes.skip(1), capital);
        an_escape_stands_for_its_byte(
            bytes[0],
            capital,
            percent_encoded(bytes.skip(1), capital),
        );
        assert(seq![bytes[0]] + bytes.skip(1) =~= bytes);
    }
}

proof fn lemma_encoded_is_ascii(bytes: Seq<u8>, capital: bool, i: int)
    requires
        0 <= i < percent_encoded(bytes, capital).len(),
    ensures
        percent_encoded(bytes, capital)[i] < 0x80,
    decreases bytes.len(),
{
    if bytes.len() > 0 {
        lemma_nibbles(bytes[0], capital);
        if i >= 3 {
            lemma_encoded_is_ascii(bytes.skip(1), capital, i - 3);
            assert(percent_encoded(bytes, capital)[i] == percent_encoded(bytes.skip(1), capital)[i
                - 3]);
        } else {
            assert(percent_encoded(bytes, capital)[i] == escape_of(bytes[0], capital)[i]);
        }
    }
}

/// Any text, in any script, that a URL carries as escapes is read back as it was.
pub proof fn encoded_text_is_read_back(text: Seq<char>, capital: bool, written: Seq<char>)
    requires
        written.len() == percent_encoded(encode_utf8(text), capital).len(),
        forall|i: int|
            0 <= i < written.len() ==> #[trigger] written[i] as int == percent_encoded(
                encode_utf8(text),
                capital,
            )[i] as int,
    ensures
        percent_decoded(written) == text,
{
    let bytes = percent_encoded(encode_utf8(text), capital);
    assert forall|i: int| 0 <= i < written.len() implies '\0' <= #[trigger] written[i]
        <= '\u{7f}' by {
        lemma_encoded_is_ascii(encode_utf8(text), capital, i);
    }
    is_ascii_chars_encode_utf8(written);
    assert(encode_utf8(written) =~= bytes);
    escapes_are_read_back(encode_utf8(text), capital);
    encode_utf8_valid_utf8(text);
    encode_utf8_decode_utf8(text);
}

// ---------------------------------------------------------------------------
// Numbered names, written out
// ---------------------------------------------------------------------------

/// A name with an extension has its number in front of the last dot.
pub proof fn number_goes_in_front_of_the_extension(front: Seq<char>, ext: Seq<char>, n: nat)
    requires
        n > 0,
        front.len() > 0,
        front != seq!['.'] || ext.len() > 0,
        forall|i: int| 0 <= i < ext.len() ==> #[trigger] ext[i] != '.',
    ensures
        candidate(front.push('.') + ext, n) == front + seq![' ', '('] + decimal(n) + seq![')']
            + seq!['.'] + ext,
{
    reveal_strlit(" (");
    reveal_strlit(")");
    reveal_strlit(".");
    reveal_strlit("..");
    let name = front.push('.') + ext;
    assert forall|j: int| front.len() < j < name.len() implies name[j] != '.' by {
        assert(name[j] == ext[j - front.len() - 1]);
    }
    lemma_last_position_is(name, '.', front.len() as int);
    assert(!nameless(name)) by {
        if name == ".."@ {
            assert(front[0] == name[0]);
            assert(front =~= seq!['.']);
        }
    }
    assert(name.take(front.len() as int) =~= front);
    assert(name.skip(front.len() as int) =~= seq!['.'] + ext);
    assert(candidate(name, n) =~= front + seq![' ', '('] + decimal(n) + seq![')'] + seq!['.']
        + ext);
}

/// A name without an extension has its number at the end; a dot at its start
/// makes no extension.
pub proof fn number_goes_to_the_end_without_extension(name: Seq<char>, n: nat)
    requires
        n > 0,
        name.len() > 0,
        name != seq!['.'],
        forall|i: int| 0 < i < name.len() ==> #[trigger] name[i] != '.',
    ensures
        candidate(name, n) == name + seq![' ', '('] + decimal(n) + seq![')'],
{
    reveal_strlit(" (");
    reveal_strlit(")");
    reveal_strlit(".");
    reveal_strlit("..");
    if name[0] == '.' {
        lemma_last_position_is(name, '.', 0);
    } else {
        lemma_last_position_is(name, '.', -1);
    }
    assert("."@ =~= seq!['.']);
    assert(".."@[1] == '.');
    assert(!nameless(name));
    assert(name.take(name.len() as int) =~= name);
    assert(candidate(name, n) =~= name + seq![' ', '('] + decimal(n) + seq![')']);
}

/// The search looks at the wanted name first and then at its numbers from 1 to
/// 9999, one after the other, and takes the first that is free.
pub proof fn numbers_are_tried_in_order(name: Seq<char>, attempt: nat)
    ensures
        candidate(name, 0) == name,
        next_step(name, attempt, false) == PathStepView::Use(candidate(name, attempt)),
        attempt < 9999 ==> next_step(name, attempt, true) == PathStepView::Probe(
            candidate(name, attempt + 1),
        ),
        attempt >= 9999 ==> next_step(name, attempt, true) == PathStepView::Use(name),
{
}

/// What is decoded is read as UTF-8 where it is that, and with replacements
/// where it is not.
pub proof fn decoded_bytes_are_read_as_text(text: Seq<char>)
    ensures
        ({
            let bytes = decoded(encode_utf8(text));
            &&& valid_utf8(bytes) ==> percent_decoded(text) == decode_utf8(bytes)
            &&& !valid_utf8(bytes) ==> percent_decoded(text) == lossy_text(bytes)
        }),
{
}

/// A plus sign and a digit behind a percent sign stand for the digit's value.
pub proof fn a_signed_digit_is_an_escape(n: int, capital: bool, rest: Seq<u8>)
    requires
        0 <= n < 16,
    ensures
        decoded(seq![0x25u8, 0x2b, nibble(n, capital)] + rest) == seq![n as u8] + decoded(rest),
{
    let bytes = seq![0x25u8, 0x2b, nibble(n, capital)] + rest;
    assert(hex_value(nibble(n, capital)) == Some(n as u8));
    assert(bytes.skip(3) =~= rest);
}

/// What names no file is numbered as a download.
pub proof fn what_names_no_file_is_a_download(name: Seq<char>, n: nat)
    requires
        n > 0,
        name.len() == 0 || name == seq!['.'] || name == seq!['.', '.'],
    ensures
        candidate(name, n) == seq!['d', 'o', 'w', 'n', 'l', 'o', 'a', 'd', ' ', '('] + decimal(n)
            + seq![')'],
{
    reveal_strlit("download");
    reveal_strlit(" (");
    reveal_strlit(")");
    reveal_strlit(".");
    reveal_strlit("..");
    assert("."@ =~= seq!['.']);
    assert(".."@ =~= seq!['.', '.']);
    assert(candidate(name, n) =~= seq!['d', 'o', 'w', 'n', 'l', 'o', 'a', 'd', ' ', '('] + decimal(
        n,
    ) + seq![')']);
}

} // verus!
