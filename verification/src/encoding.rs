//! Base64, the text form in which a page sends pictures.

use vstd::prelude::*;

use base64::Engine;

verus! {

/// The base64 digit with value `n`.
pub open spec fn base64_digit(n: int) -> char {
    if n < 26 {
        (65 + n) as char
    } else if n < 52 {
        (71 + n) as char
    } else if n < 62 {
        (n - 4) as char
    } else if n == 62 {
        '+'
    } else {
        '/'
    }
}

/// `bytes` in base64: four digits of six bits for every three bytes, with `=`
/// in place of the digits that a last incomplete group lacks.
pub open spec fn base64_text(bytes: Seq<u8>) -> Seq<char>
    decreases bytes.len(),
{
    if bytes.len() == 0 {
        Seq::empty()
    } else if bytes.len() == 1 {
        seq![base64_digit(bytes[0] as int / 4), base64_digit(bytes[0] as int % 4 * 16), '=', '=']
    } else if bytes.len() == 2 {
        seq![
            base64_digit(bytes[0] as int / 4),
            base64_digit(bytes[0] as int % 4 * 16 + bytes[1] as int / 16),
            base64_digit(bytes[1] as int % 16 * 4),
            '=',
        ]
    } else {
        seq![
            base64_digit(bytes[0] as int / 4),
            base64_digit(bytes[0] as int % 4 * 16 + bytes[1] as int / 16),
            base64_digit(bytes[1] as int % 16 * 4 + bytes[2] as int / 64),
            base64_digit(bytes[2] as int % 64),
        ] + base64_text(bytes.skip(3))
    }
}

/// `decode` of the engine `base64::engine::general_purpose::STANDARD`: the bytes
/// whose base64 form is `text`, or `None` where no bytes have that form. The
/// engine wants full padding and no stray bits in the last digit, so it accepts
/// no text but the one form that each byte string has.
#[verifier::external_body]
pub(crate) fn base64_decode(text: &str) -> (bytes: Option<Vec<u8>>)
    ensures
        match bytes {
            Some(b) => text@ == base64_text(b@),
            None => forall|b: Seq<u8>| text@ != #[trigger] base64_text(b),
        },
{
    base64::engine::general_purpose::STANDARD.decode(text).ok()
}

/// Base64 text is four characters for every three bytes begun, each of them a
/// digit or the padding.
pub proof fn base64_form(bytes: Seq<u8>)
    ensures
        base64_text(bytes).len() == (bytes.len() + 2) / 3 * 4,
        forall|i: int|
            0 <= i < base64_text(bytes).len() ==> {
                let c = #[trigger] base64_text(bytes)[i];
                'A' <= c <= 'Z' || 'a' <= c <= 'z' || '0' <= c <= '9' || c == '+' || c == '/'
                    || c == '='
            },
    decreases bytes.len(),
{
    if bytes.len() >= 3 {
        base64_form(bytes.skip(3));
        let rest = base64_text(bytes.skip(3));
        assert forall|i: int| 4 <= i < base64_text(bytes).len() implies #[trigger] base64_text(
            bytes,
        )[i] == rest[i - 4] by {}
    }
}

/// Different bytes have different base64 forms, so that what is decoded is what
/// was encoded.
pub proof fn base64_is_injective(a: Seq<u8>, b: Seq<u8>)
    requires
        base64_text(a) == base64_text(b),
    ensures
        a == b,
    decreases a.len(),
{
    base64_form(a);
    base64_form(b);
    let s = base64_text(a);
    if a.len() == 0 {
        assert(b.len() == 0);
    } else {
        assert(s[0] == base64_digit(a[0] as int / 4));
        assert(s[0] == base64_digit(b[0] as int / 4));
        if a.len() >= 3 {
            assert(s[3] == base64_digit(a[2] as int % 64));
            assert(s[3] != '=');
            assert(b.len() >= 3);
            assert(s[3] == base64_digit(b[2] as int % 64));
            assert(s.skip(4) =~= base64_text(a.skip(3)));
            assert(s.skip(4) =~= base64_text(b.skip(3)));
            base64_is_injective(a.skip(3), b.skip(3));
            assert forall|i: int| 3 <= i < a.len() implies a[i] == b[i] by {
                assert(a.skip(3)[i - 3] == b.skip(3)[i - 3]);
            }
        } else {
            assert(s[3] == '=');
            assert(b.len() < 3);
        }
    }
    assert(a =~= b);
}

} // verus!
