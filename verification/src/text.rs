//! Text primitives: the character-level operations that the rest of the
//! library is stated in.
//!
//! Text is modelled as `Seq<char>`, the view of `str` and `String`.

use vstd::prelude::*;

verus! {

/// `String::push` appends one character to the end of the text.
pub assume_specification[ String::push ](text: &mut String, c: char)
    ensures
        final(text)@ == old(text)@.push(c),
;

// ---------------------------------------------------------------------------
// Conversion between text and character vectors
// ---------------------------------------------------------------------------

/// The characters of `text`, in order.
pub fn chars_of(text: &str) -> (chars: Vec<char>)
    ensures
        chars@ == text@,
{
    let mut chars: Vec<char> = Vec::new();
    for c in it: text.chars()
        invariant
            it.seq() == text@,
            chars@ == it.seq().take(it.index() as int),
    {
        chars.push(c);
    }
    chars
}

/// The text that consists of `chars`.
pub fn text_of(chars: &Vec<char>) -> (text: String)
    ensures
        text@ == chars@,
{
    let mut text: String = String::new();
    let mut i: usize = 0;
    while i < chars.len()
        invariant
            i <= chars.len(),
            text@ == chars@.take(i as int),
        decreases chars.len() - i,
    {
        text.push(chars[i]);
        i += 1;
        assert(chars@.take(i as int) =~= chars@.take(i - 1).push(chars@[i - 1]));
    }
    assert(chars@.take(i as int) =~= chars@);
    text
}

/// Whether two character vectors hold the same text.
pub fn same_chars(a: &Vec<char>, b: &Vec<char>) -> (same: bool)
    ensures
        same == (a@ == b@),
{
    if a.len() != b.len() {
        return false;
    }
    let mut i: usize = 0;
    while i < a.len()
        invariant
            i <= a.len(),
            a.len() == b.len(),
            forall|j: int| 0 <= j < i ==> a@[j] == b@[j],
        decreases a.len() - i,
    {
        if a[i] != b[i] {
            return false;
        }
        i += 1;
    }
    assert(a@ =~= b@);
    true
}

/// Whether two texts are equal.
pub fn same_text(a: &str, b: &str) -> (same: bool)
    ensures
        same == (a@ == b@),
{
    same_chars(&chars_of(a), &chars_of(b))
}

/// The concatenation of two texts.
pub fn concat_text(a: &str, b: &str) -> (text: String)
    ensures
        text@ == a@ + b@,
{
    let mut text: String = a.to_string();
    text.append(b);
    text
}

// ---------------------------------------------------------------------------
// Lists of literals
// ---------------------------------------------------------------------------

/// Whether `text` is one of the texts in `list`.
pub open spec fn listed(list: Seq<&'static str>, text: Seq<char>) -> bool {
    exists|i: int| 0 <= i < list.len() && (#[trigger] list[i])@ == text
}

/// Whether `text` is one of the texts in `list`.
pub fn is_listed(list: &Vec<&'static str>, text: &Vec<char>) -> (found: bool)
    ensures
        found == listed(list@, text@),
{
    let mut i: usize = 0;
    while i < list.len()
        invariant
            i <= list.len(),
            forall|j: int| 0 <= j < i ==> (#[trigger] list@[j])@ != text@,
        decreases list.len() - i,
    {
        if same_chars(&chars_of(list[i]), text) {
            assert(list@[i as int]@ == text@);
            return true;
        }
        i += 1;
    }
    false
}

// ---------------------------------------------------------------------------
// Character classes, trimming and case
// ---------------------------------------------------------------------------

/// Whether `c` has the Unicode property `White_Space`.
pub open spec fn white_space(c: char) -> bool {
    ||| '\u{9}' <= c <= '\u{d}'
    ||| c == '\u{20}'
    ||| c == '\u{85}'
    ||| c == '\u{a0}'
    ||| c == '\u{1680}'
    ||| '\u{2000}' <= c <= '\u{200a}'
    ||| c == '\u{2028}'
    ||| c == '\u{2029}'
    ||| c == '\u{202f}'
    ||| c == '\u{205f}'
    ||| c == '\u{3000}'
}

/// Whether `c` has the Unicode property `White_Space`.
pub fn is_white_space(c: char) -> (yes: bool)
    ensures
        yes == white_space(c),
{
    ('\u{9}' <= c && c <= '\u{d}') || c == '\u{20}' || c == '\u{85}' || c == '\u{a0}' || c
        == '\u{1680}' || ('\u{2000}' <= c && c <= '\u{200a}') || c == '\u{2028}' || c == '\u{2029}'
        || c == '\u{202f}' || c == '\u{205f}' || c == '\u{3000}'
}

/// A set of characters that can be trimmed off both ends of a text.
#[derive(Clone, Copy, PartialEq, Eq, Structural, Debug)]
pub enum Padding {
    /// Unicode white space.
    WhiteSpace,
    /// Full stops.
    Dots,
}

/// Whether `c` belongs to `padding`.
pub open spec fn pads(c: char, padding: Padding) -> bool {
    match padding {
        Padding::WhiteSpace => white_space(c),
        Padding::Dots => c == '.',
    }
}

/// Whether `c` belongs to `padding`.
pub fn is_padding(c: char, padding: Padding) -> (yes: bool)
    ensures
        yes == pads(c, padding),
{
    match padding {
        Padding::WhiteSpace => is_white_space(c),
        Padding::Dots => c == '.',
    }
}

/// `text` without the padding at its start.
pub open spec fn trim_start(text: Seq<char>, padding: Padding) -> Seq<char>
    decreases text.len(),
{
    if text.len() > 0 && pads(text[0], padding) {
        trim_start(text.drop_first(), padding)
    } else {
        text
    }
}

/// `text` without the padding at its end.
pub open spec fn trim_end(text: Seq<char>, padding: Padding) -> Seq<char>
    decreases text.len(),
{
    if text.len() > 0 && pads(text.last(), padding) {
        trim_end(text.drop_last(), padding)
    } else {
        text
    }
}

/// `text` without the padding at either end.
pub open spec fn trim(text: Seq<char>, padding: Padding) -> Seq<char> {
    trim_end(trim_start(text, padding), padding)
}

/// The part of `text` from `from` up to but not including `to`.
pub fn slice_chars(text: &Vec<char>, from: usize, to: usize) -> (part: Vec<char>)
    requires
        from <= to <= text.len(),
    ensures
        part@ == text@.subrange(from as int, to as int),
{
    let mut part: Vec<char> = Vec::new();
    let mut i: usize = from;
    while i < to
        invariant
            from <= i <= to <= text.len(),
            part@ == text@.subrange(from as int, i as int),
        decreases to - i,
    {
        part.push(text[i]);
        i += 1;
        assert(text@.subrange(from as int, i as int) =~= text@.subrange(
            from as int,
            i - 1,
        ).push(text@[i - 1]));
    }
    part
}

/// `text` without the padding at either end.
pub fn trim_chars(text: &Vec<char>, padding: Padding) -> (trimmed: Vec<char>)
    ensures
        trimmed@ == trim(text@, padding),
{
    let mut from: usize = 0;
    assert(text@.skip(0) =~= text@);
    while from < text.len() && is_padding(text[from], padding)
        invariant
            from <= text.len(),
            trim_start(text@, padding) == trim_start(text@.skip(from as int), padding),
        decreases text.len() - from,
    {
        assert(text@.skip(from as int).drop_first() =~= text@.skip(from + 1));
        from += 1;
    }
    let ghost rest = text@.skip(from as int);
    assert(trim_start(text@, padding) == rest);
    let mut to: usize = text.len();
    assert(text@.subrange(from as int, to as int) =~= rest);
    while from < to && is_padding(text[to - 1], padding)
        invariant
            from <= to <= text.len(),
            trim_end(rest, padding) == trim_end(
                text@.subrange(from as int, to as int),
                padding,
            ),
        decreases to,
    {
        assert(text@.subrange(from as int, to as int).drop_last() =~= text@.subrange(
            from as int,
            to - 1,
        ));
        to -= 1;
    }
    slice_chars(text, from, to)
}

/// `c` with an ASCII capital replaced by its small letter.
pub open spec fn lower_char(c: char) -> char {
    if 'A' <= c <= 'Z' {
        (c as u8 + 32) as char
    } else {
        c
    }
}

/// `c` with an ASCII capital replaced by its small letter.
pub fn to_lower_char(c: char) -> (l: char)
    ensures
        l == lower_char(c),
{
    if 'A' <= c && c <= 'Z' {
        (c as u8 + 32) as char
    } else {
        c
    }
}

/// `text` with every ASCII capital replaced by its small letter.
pub open spec fn lower(text: Seq<char>) -> Seq<char> {
    Seq::new(text.len(), |i: int| lower_char(text[i]))
}

/// `text` with every ASCII capital replaced by its small letter.
pub fn lower_chars(text: &Vec<char>) -> (lowered: Vec<char>)
    ensures
        lowered@ == lower(text@),
{
    let mut lowered: Vec<char> = Vec::new();
    let mut i: usize = 0;
    while i < text.len()
        invariant
            i <= text.len(),
            lowered@.len() == i,
            forall|j: int| 0 <= j < i ==> lowered@[j] == lower_char(text@[j]),
        decreases text.len() - i,
    {
        lowered.push(to_lower_char(text[i]));
        i += 1;
    }
    assert(lowered@ =~= lower(text@));
    lowered
}

// ---------------------------------------------------------------------------
// Prefixes, suffixes and splitting
// ---------------------------------------------------------------------------

/// Whether `part` stands in `text` at position `at`.
pub open spec fn occurs_at(text: Seq<char>, part: Seq<char>, at: int) -> bool {
    0 <= at && at + part.len() <= text.len() && text.subrange(at, at + part.len()) == part
}

/// Whether `part` stands in `text` at position `at`.
pub fn has_at(text: &Vec<char>, part: &Vec<char>, at: usize) -> (yes: bool)
    ensures
        yes == occurs_at(text@, part@, at as int),
{
    if at > text.len() || text.len() - at < part.len() {
        return false;
    }
    let mut i: usize = 0;
    while i < part.len()
        invariant
            i <= part.len(),
            at + part.len() <= text.len(),
            forall|j: int| 0 <= j < i ==> text@[at + j] == part@[j],
        decreases part.len() - i,
    {
        if text[at + i] != part[i] {
            assert(text@.subrange(at as int, at + part.len())[i as int] == text@[at + i]);
            return false;
        }
        i += 1;
    }
    assert(text@.subrange(at as int, at + part.len()) =~= part@);
    true
}

/// Whether `text` starts with `prefix`.
pub open spec fn starts_with(text: Seq<char>, prefix: Seq<char>) -> bool {
    occurs_at(text, prefix, 0)
}

/// Whether `text` ends with `suffix`.
pub open spec fn ends_with(text: Seq<char>, suffix: Seq<char>) -> bool {
    occurs_at(text, suffix, text.len() - suffix.len())
}

/// What follows `prefix` in `text`, if `text` starts with it.
pub open spec fn strip_prefix(text: Seq<char>, prefix: Seq<char>) -> Option<Seq<char>> {
    if starts_with(text, prefix) {
        Some(text.skip(prefix.len() as int))
    } else {
        None
    }
}

/// Whether `text` starts with `prefix`.
pub fn has_prefix(text: &Vec<char>, prefix: &Vec<char>) -> (yes: bool)
    ensures
        yes == starts_with(text@, prefix@),
{
    has_at(text, prefix, 0)
}

/// Whether `text` ends with `suffix`.
pub fn has_suffix(text: &Vec<char>, suffix: &Vec<char>) -> (yes: bool)
    ensures
        yes == ends_with(text@, suffix@),
{
    text.len() >= suffix.len() && has_at(text, suffix, text.len() - suffix.len())
}

/// Whether `part` stands anywhere in `text`.
pub open spec fn occurs(text: Seq<char>, part: Seq<char>) -> bool {
    exists|at: int| #[trigger] occurs_at(text, part, at)
}

/// Whether `part` stands anywhere in `text`.
pub fn has_part(text: &Vec<char>, part: &Vec<char>) -> (yes: bool)
    ensures
        yes == occurs(text@, part@),
{
    let mut at: usize = 0;
    while at < text.len()
        invariant
            at <= text.len(),
            forall|j: int| 0 <= j < at ==> !#[trigger] occurs_at(text@, part@, j),
        decreases text.len() - at,
    {
        if has_at(text, part, at) {
            return true;
        }
        at += 1;
    }
    has_at(text, part, at)
}

/// What follows `prefix` in `text`, if `text` starts with it.
pub fn without_prefix(text: &Vec<char>, prefix: &Vec<char>) -> (rest: Option<Vec<char>>)
    ensures
        match rest {
            Some(r) => strip_prefix(text@, prefix@) == Some(r@),
            None => strip_prefix(text@, prefix@) is None,
        },
{
    if has_prefix(text, prefix) {
        let rest = slice_chars(text, prefix.len(), text.len());
        assert(rest@ =~= text@.skip(prefix@.len() as int));
        Some(rest)
    } else {
        None
    }
}

/// The parts of `text` between the occurrences of `separator`. There is always
/// at least one part.
pub open spec fn split(text: Seq<char>, separator: char) -> Seq<Seq<char>>
    decreases text.len(),
{
    if text.len() == 0 {
        seq![Seq::<char>::empty()]
    } else {
        let parts = split(text.drop_last(), separator);
        if text.last() == separator {
            parts.push(Seq::<char>::empty())
        } else {
            parts.update(parts.len() - 1, parts.last().push(text.last()))
        }
    }
}

/// The contents of a vector of character vectors.
pub open spec fn parts_view(parts: Seq<Vec<char>>) -> Seq<Seq<char>> {
    Seq::new(parts.len(), |i: int| parts[i]@)
}

/// The parts of `text` between the occurrences of `separator`.
pub fn split_chars(text: &Vec<char>, separator: char) -> (parts: Vec<Vec<char>>)
    ensures
        parts_view(parts@) == split(text@, separator),
{
    let mut done: Vec<Vec<char>> = Vec::new();
    let mut current: Vec<char> = Vec::new();
    let mut i: usize = 0;
    assert(parts_view(done@).push(current@) =~= split(text@.take(0), separator));
    while i < text.len()
        invariant
            i <= text.len(),
            parts_view(done@).push(current@) == split(text@.take(i as int), separator),
        decreases text.len() - i,
    {
        let ghost before = parts_view(done@).push(current@);
        let c = text[i];
        i += 1;
        let ghost upto = text@.take(i as int);
        assert(upto.drop_last() =~= text@.take(i - 1));
        assert(upto.last() == c);
        if c == separator {
            let ghost old_done = done@;
            done.push(current);
            current = Vec::new();
            assert(parts_view(done@) =~= before);
            assert(parts_view(done@).push(current@) =~= before.push(Seq::<char>::empty()));
        } else {
            let ghost old_current = current@;
            current.push(c);
            assert(before.last() == old_current);
            assert(parts_view(done@).push(current@) =~= before.update(
                before.len() - 1,
                old_current.push(c),
            ));
        }
    }
    assert(text@.take(i as int) =~= text@);
    let ghost whole = parts_view(done@).push(current@);
    done.push(current);
    assert(parts_view(done@) =~= whole);
    done
}

/// The position of the last `c` in `text`, or -1 where there is none.
pub open spec fn last_position(text: Seq<char>, c: char) -> int
    decreases text.len(),
{
    if text.len() == 0 {
        -1
    } else if text.last() == c {
        text.len() - 1
    } else {
        last_position(text.drop_last(), c)
    }
}

/// `last_position` is what its name says.
pub proof fn lemma_last_position(text: Seq<char>, c: char)
    ensures
        -1 <= last_position(text, c) < text.len(),
        last_position(text, c) >= 0 ==> text[last_position(text, c)] == c,
        forall|j: int| last_position(text, c) < j < text.len() ==> text[j] != c,
    decreases text.len(),
{
    if text.len() > 0 && text.last() != c {
        lemma_last_position(text.drop_last(), c);
        assert forall|j: int| last_position(text, c) < j < text.len() implies text[j] != c by {
            if j < text.len() - 1 {
                assert(text[j] == text.drop_last()[j]);
            }
        }
    }
}

/// A position with `c` and no later `c` is the last one.
pub proof fn lemma_last_position_is(text: Seq<char>, c: char, at: int)
    requires
        -1 <= at < text.len(),
        at >= 0 ==> text[at] == c,
        forall|j: int| at < j < text.len() ==> text[j] != c,
    ensures
        last_position(text, c) == at,
{
    lemma_last_position(text, c);
    let p = last_position(text, c);
    if p > at {
        assert(text[p] != c);
    }
    if p < at {
        assert(text[at] != c);
    }
}

/// The position of the last `c` in `text`, if there is one.
pub fn find_last(text: &Vec<char>, c: char) -> (at: Option<usize>)
    ensures
        match at {
            Some(i) => i == last_position(text@, c),
            None => last_position(text@, c) == -1,
        },
{
    let mut i: usize = text.len();
    while i > 0
        invariant
            i <= text.len(),
            forall|j: int| i <= j < text.len() ==> text@[j] != c,
        decreases i,
    {
        if text[i - 1] == c {
            proof {
                lemma_last_position_is(text@, c, i - 1);
            }
            return Some(i - 1);
        }
        i -= 1;
    }
    proof {
        lemma_last_position_is(text@, c, -1);
    }
    None
}

// ---------------------------------------------------------------------------
// Case and padding, character by character
// ---------------------------------------------------------------------------

/// Whether `small` is `text` with its ASCII capitals made small letters.
pub open spec fn in_small_letters(text: Seq<char>, small: Seq<char>) -> bool {
    small.len() == text.len() && forall|i: int|
        0 <= i < text.len() ==> #[trigger] small[i] as int == text[i] as int + (if 'A' <= text[i]
            <= 'Z' {
            32int
        } else {
            0int
        })
}

proof fn lemma_small_letter(c: char, s: char)
    requires
        s as int == c as int + (if 'A' <= c <= 'Z' {
            32int
        } else {
            0int
        }),
    ensures
        s == lower_char(c),
{
}

/// Lowering a text puts each ASCII capital in small letters and leaves every
/// other character alone.
pub proof fn small_letters_are_lower(text: Seq<char>, small: Seq<char>)
    requires
        in_small_letters(text, small),
    ensures
        small == lower(text),
{
    assert forall|i: int| 0 <= i < text.len() implies #[trigger] small[i] == lower(text)[i] by {
        lemma_small_letter(text[i], small[i]);
    }
    assert(small =~= lower(text));
}

/// Padding in front of a text is trimmed off.
pub proof fn padding_in_front_is_trimmed(c: char, text: Seq<char>, padding: Padding)
    requires
        pads(c, padding),
    ensures
        trim(seq![c] + text, padding) == trim(text, padding),
{
    assert((seq![c] + text).drop_first() =~= text);
}

proof fn lemma_trim_start_push(text: Seq<char>, c: char, padding: Padding)
    requires
        pads(c, padding),
    ensures
        trim_start(text, padding).len() == 0 ==> trim_start(text.push(c), padding).len() == 0,
        trim_start(text, padding).len() > 0 ==> trim_start(text.push(c), padding) == trim_start(
            text,
            padding,
        ).push(c),
    decreases text.len(),
{
    if text.len() == 0 {
        assert(text.push(c).drop_first() =~= Seq::<char>::empty());
        reveal_with_fuel(trim_start, 2);
    } else if pads(text[0], padding) {
        assert(text.push(c).drop_first() =~= text.drop_first().push(c));
        lemma_trim_start_push(text.drop_first(), c, padding);
    }
}

/// Padding behind a text is trimmed off.
pub proof fn padding_behind_is_trimmed(text: Seq<char>, c: char, padding: Padding)
    requires
        pads(c, padding),
    ensures
        trim(text.push(c), padding) == trim(text, padding),
{
    lemma_trim_start_push(text, c, padding);
    let front = trim_start(text, padding);
    if front.len() > 0 {
        assert(front.push(c).drop_last() =~= front);
    } else {
        assert(trim_start(text.push(c), padding) =~= front);
    }
}

/// A text without padding at its ends is not trimmed.
pub proof fn text_without_padding_is_kept(text: Seq<char>, padding: Padding)
    requires
        text.len() > 0 ==> !pads(text[0], padding) && !pads(text.last(), padding),
    ensures
        trim(text, padding) == text,
{
}

// ---------------------------------------------------------------------------
// Parts, as they are put together
// ---------------------------------------------------------------------------

/// A text starts with what was put in front of it, and what follows is the rest.
pub proof fn a_prefix_is_found_and_taken_off(prefix: Seq<char>, rest: Seq<char>)
    ensures
        starts_with(prefix + rest, prefix),
        strip_prefix(prefix + rest, prefix) == Some(rest),
{
    assert((prefix + rest).subrange(0, prefix.len() as int) =~= prefix);
    assert((prefix + rest).skip(prefix.len() as int) =~= rest);
}

/// A text that starts otherwise does not start with a prefix.
pub proof fn no_other_prefix_is_found(text: Seq<char>, prefix: Seq<char>, i: int)
    requires
        text.len() < prefix.len() || (0 <= i < prefix.len() && text[i] != prefix[i]),
    ensures
        !starts_with(text, prefix),
        strip_prefix(text, prefix) is None,
{
    if text.len() >= prefix.len() {
        assert(text.subrange(0, prefix.len() as int)[i] == text[i]);
    }
}

/// A part is found wherever it stands.
pub proof fn a_part_is_found_anywhere(front: Seq<char>, part: Seq<char>, back: Seq<char>)
    ensures
        occurs(front + part + back, part),
{
    let text = front + part + back;
    assert(text.subrange(front.len() as int, front.len() as int + part.len()) =~= part);
    assert(occurs_at(text, part, front.len() as int));
}

/// Where a part is found, the text is made of it and what stands around it.
pub proof fn a_found_part_is_there(text: Seq<char>, part: Seq<char>) -> (at: int)
    requires
        occurs(text, part),
    ensures
        0 <= at <= text.len() - part.len(),
        text == text.take(at) + part + text.skip(at + part.len()),
{
    let at = choose|at: int| #[trigger] occurs_at(text, part, at);
    assert(text.subrange(at, at + part.len()) == part);
    assert(text =~= text.take(at) + part + text.skip(at + part.len()));
    at
}

} // verus!
