//! Text helpers: searching, decimal rendering and terminal-safe output.

use vstd::prelude::*;
use vstd::string::*;
use vstd::utf8::{decode_utf8, encode_utf8, valid_utf8};

verus! {

/// `needle` occurs in `hay` as a contiguous run of characters.
pub open spec fn contains_text(hay: Seq<char>, needle: Seq<char>) -> bool {
    exists|i: int|
        0 <= i <= hay.len() - needle.len() && #[trigger] hay.subrange(i, i + needle.len())
            == needle
}

/// The Unicode lowercase form of a text.
pub uninterp spec fn lowercase(text: Seq<char>) -> Seq<char>;

/// `str::to_lowercase`: the result is named, its mapping is Unicode's and is
/// not restated.
#[verifier::external_body]
pub(crate) fn to_lowercase(text: &str) -> (r: String)
    ensures
        r@ == lowercase(text@),
{
    text.to_lowercase()
}

/// `str::contains` with a string pattern: true exactly when the pattern occurs
/// as a contiguous substring.
#[verifier::external_body]
pub(crate) fn str_contains(hay: &str, needle: &str) -> (r: bool)
    ensures
        r == contains_text(hay@, needle@),
{
    hay.contains(needle)
}

/// `String::push`: appends one character.
#[verifier::external_body]
pub(crate) fn push_char(text: &mut String, ch: char)
    ensures
        final(text)@ == old(text)@.push(ch),
{
    text.push(ch)
}

/// `String::pop`: removes the last character, if there is one.
#[verifier::external_body]
pub(crate) fn pop_char(text: &mut String) -> (r: Option<char>)
    ensures
        old(text)@.len() == 0 ==> r is None && final(text)@ == old(text)@,
        old(text)@.len() > 0 ==> r == Some(old(text)@.last()) && final(text)@
            == old(text)@.drop_last(),
{
    text.pop()
}

/// The number of bytes of a character's UTF-8 encoding.
pub(crate) fn char_utf8_len(ch: char) -> (r: usize)
    ensures
        r == encode_utf8(seq![ch]).len(),
        1 <= r <= 4,
{
    proof {
        assert(seq![ch].drop_first() =~= Seq::empty());
        assert(encode_utf8(seq![ch].drop_first()) =~= Seq::empty());
    }
    let code: u32 = ch as u32;
    if code <= 0x7F {
        1
    } else if code <= 0x7FF {
        2
    } else if code <= 0xFFFF {
        3
    } else {
        4
    }
}

/// What the error of `String::from_utf8` says of bytes that are not valid UTF-8.
pub uninterp spec fn utf8_error_text(bytes: Seq<u8>) -> Seq<char>;

/// `String::from_utf8`: the decoded text, exactly when the bytes are valid UTF-8. Of other
/// bytes it is the text of the error, which is named: it depends on the bytes alone, and
/// its wording is not restated.
#[verifier::external_body]
pub(crate) fn text_from_utf8(bytes: Vec<u8>) -> (r: Result<String, String>)
    ensures
        r is Ok <==> valid_utf8(bytes@),
        r is Ok ==> r->Ok_0@ == decode_utf8(bytes@),
        r is Err ==> r->Err_0@ == utf8_error_text(bytes@),
{
    match String::from_utf8(bytes) {
        Ok(text) => Ok(text),
        Err(error) => Err(error.to_string()),
    }
}

/// The text of an optional string.
pub open spec fn opt_text(text: Option<String>) -> Option<Seq<char>> {
    match text {
        Some(text) => Some(text@),
        None => None,
    }
}

/// The text of an optional string slice.
pub open spec fn opt_str_text(text: Option<&str>) -> Option<Seq<char>> {
    match text {
        Some(text) => Some(text@),
        None => None,
    }
}

/// Borrow an optional string.
pub fn opt_str(text: &Option<String>) -> (r: Option<&str>)
    ensures
        opt_str_text(r) == opt_text(*text),
        r is Some <==> text is Some,
        r is Some ==> r->0@ == text->0@,
{
    match text {
        Some(text) => Some(text.as_str()),
        None => None,
    }
}

/// Whether two texts are equal.
pub fn str_eq(a: &str, b: &str) -> (r: bool)
    ensures
        r == (a@ == b@),
{
    a.to_owned() == b.to_owned()
}

/// The number of bytes a text takes in UTF-8.
pub open spec fn utf8_len(text: Seq<char>) -> nat {
    encode_utf8(text).len()
}

/// Count the bytes of a text.
pub fn text_len(text: &str) -> (r: usize)
    ensures
        r == utf8_len(text@),
{
    assert(text.spec_bytes().len() == utf8_len(text@));
    text.as_bytes().len()
}

/// The decimal digit for `d`.
pub open spec fn digit_char(d: nat) -> char {
    ((48 + d) as u32) as char
}

/// `n` in decimal, most significant digit first, without leading zeros.
pub open spec fn decimal(n: nat) -> Seq<char>
    decreases n,
{
    if n < 10 {
        seq![digit_char(n)]
    } else {
        decimal(n / 10).push(digit_char(n % 10))
    }
}

fn digit(d: u8) -> (r: char)
    requires
        d < 10,
    ensures
        r == digit_char(d as nat),
{
    (48 + d) as char
}

/// Render `n` in decimal.
pub fn decimal_text(n: u128) -> (r: String)
    ensures
        r@ == decimal(n as nat),
    decreases n,
{
    if n < 10 {
        let mut text = String::new();
        push_char(&mut text, digit(n as u8));
        text
    } else {
        let mut text = decimal_text(n / 10);
        push_char(&mut text, digit((n % 10) as u8));
        text
    }
}

/// The characters of a text.
pub fn chars_of(text: &str) -> (r: Vec<char>)
    ensures
        r@ == text@,
{
    let mut out: Vec<char> = Vec::new();
    assert(text@.take(0) =~= Seq::empty());
    for ch in it: text.chars()
        invariant
            it.seq() == text@,
            out@ == text@.take(it.index() as int),
    {
        out.push(ch);
        proof {
            let k = it.index() as int;
            assert(text@.take(k + 1) =~= text@.take(k).push(text@[k]));
        }
    }
    assert(text@.take(text@.len() as int) =~= text@);
    out
}

/// Characters that a terminal line must not carry through.
pub open spec fn is_control(ch: char) -> bool {
    (ch as u32) < 32 || 127 <= (ch as u32) < 160
}

/// Line breaks and tabs, which become a space.
pub open spec fn is_line_space(ch: char) -> bool {
    ch == '\n' || ch == '\r' || ch == '\t'
}

/// Terminal-safe form of a text: line breaks and tabs become spaces, every other
/// control character is dropped.
pub open spec fn sanitized(text: Seq<char>) -> Seq<char>
    decreases text.len(),
{
    if text.len() == 0 {
        text
    } else {
        let head = sanitized(text.drop_last());
        let ch = text.last();
        if is_line_space(ch) {
            head.push(' ')
        } else if is_control(ch) {
            head
        } else {
            head.push(ch)
        }
    }
}

/// Make a text safe for one terminal line.
pub fn sanitize(text: &str) -> (r: String)
    ensures
        r@ == sanitized(text@),
{
    let mut out = String::new();
    assert(text@.take(0) =~= Seq::empty());
    for ch in it: text.chars()
        invariant
            it.seq() == text@,
            out@ == sanitized(text@.take(it.index() as int)),
    {
        proof {
            let k = it.index() as int;
            assert(text@.take(k + 1).drop_last() =~= text@.take(k));
            assert(text@.take(k + 1).last() == text@[k]);
        }
        let code: u32 = ch as u32;
        if ch == '\n' || ch == '\r' || ch == '\t' {
            push_char(&mut out, ' ');
        } else if code < 32 || (127 <= code && code < 160) {
        } else {
            push_char(&mut out, ch);
        }
    }
    assert(text@.take(text@.len() as int) =~= text@);
    out
}

/// A text's encoding grows by that of the character behind it.
pub proof fn lemma_utf8_push(text: Seq<char>, ch: char)
    ensures
        encode_utf8(text.push(ch)) == encode_utf8(text) + encode_utf8(seq![ch]),
        utf8_len(text.push(ch)) == utf8_len(text) + utf8_len(seq![ch]),
    decreases text.len(),
{
    reveal_with_fuel(encode_utf8, 2);
    if text.len() == 0 {
        assert(text.push(ch) =~= seq![ch]);
        assert(encode_utf8(text) =~= Seq::empty());
        assert(encode_utf8(text) + encode_utf8(seq![ch]) =~= encode_utf8(seq![ch]));
    } else {
        lemma_utf8_push(text.drop_first(), ch);
        assert(text.push(ch).drop_first() =~= text.drop_first().push(ch));
        assert(text.push(ch)[0] == text[0]);
        assert(encode_utf8(text.push(ch)) =~= encode_utf8(text) + encode_utf8(seq![ch]));
    }
}

/// A text without its last character is not longer.
pub proof fn lemma_utf8_drop_last(text: Seq<char>)
    requires
        text.len() > 0,
    ensures
        utf8_len(text.drop_last()) <= utf8_len(text),
{
    lemma_utf8_push(text.drop_last(), text.last());
    assert(text.drop_last().push(text.last()) =~= text);
}

} // verus!
