//! Text out of bytes that may not be UTF-8.

use vstd::prelude::*;
use vstd::string::*;
use vstd::utf8::{
    decode_first_scalar, decode_utf8, length_of_first_scalar, pop_first_scalar, valid_first_scalar,
    valid_utf8,
};
use crate::text::{lemma_utf8_push, push_char, text_from_utf8, text_len, utf8_len};

verus! {

/// The character that stands for bytes that are no text.
pub const REPLACEMENT: char = '\u{FFFD}';

/// The second byte may follow the first in a character of three or four bytes.
pub open spec fn second_fits(first: u8, second: u8) -> bool {
    if first == 0xe0 {
        0xa0 <= second <= 0xbf
    } else if first == 0xed {
        0x80 <= second <= 0x9f
    } else if first == 0xf0 {
        0x90 <= second <= 0xbf
    } else if first == 0xf4 {
        0x80 <= second <= 0x8f
    } else {
        0xe1 <= first <= 0xf3 && 0x80 <= second <= 0xbf
    }
}

/// How many bytes at the front of a text that does not begin with a character are
/// replaced together: as many as could have begun one.
pub open spec fn broken_len(bytes: Seq<u8>) -> int {
    if bytes.len() < 2 || !second_fits(bytes[0], bytes[1]) {
        1
    } else if bytes[0] >= 0xf0 && bytes.len() >= 3 && 0x80 <= bytes[2] <= 0xbf {
        3
    } else {
        2
    }
}

/// How many bytes the first character takes, or what stands in its place.
pub open spec fn front_len(bytes: Seq<u8>) -> int {
    if valid_first_scalar(bytes) {
        length_of_first_scalar(bytes)
    } else {
        broken_len(bytes)
    }
}

/// The text of bytes: characters as they are encoded, and one replacement for each
/// stretch of bytes that begins a character but does not end it.
pub open spec fn lossy_text(bytes: Seq<u8>) -> Seq<char>
    decreases bytes.len(),
{
    if bytes.len() == 0 {
        Seq::empty()
    } else {
        let first = if valid_first_scalar(bytes) {
            decode_first_scalar(bytes) as char
        } else {
            REPLACEMENT
        };
        seq![first] + lossy_text(bytes.skip(front_len(bytes)))
    }
}

/// The first bytes of a text that begins with a character are that character.
proof fn lemma_front_valid(bytes: Seq<u8>)
    requires
        valid_first_scalar(bytes),
    ensures
        1 <= length_of_first_scalar(bytes) <= 4,
        length_of_first_scalar(bytes) <= bytes.len(),
        valid_utf8(bytes.take(length_of_first_scalar(bytes))),
        decode_utf8(bytes.take(length_of_first_scalar(bytes))) == seq![
            decode_first_scalar(bytes) as char,
        ],
{
    let n = length_of_first_scalar(bytes);
    let front = bytes.take(n);
    assert(front[0] == bytes[0]);
    assert(valid_first_scalar(front));
    assert(length_of_first_scalar(front) == n);
    assert(pop_first_scalar(front) =~= Seq::empty());
    assert(valid_utf8(pop_first_scalar(front)));
    assert(decode_utf8(pop_first_scalar(front)) =~= Seq::empty());
    assert(decode_utf8(front) =~= seq![decode_first_scalar(bytes) as char]);
}

/// A front that is text begins with a character.
proof fn lemma_valid_front(bytes: Seq<u8>, n: int)
    requires
        1 <= n <= bytes.len(),
        valid_utf8(bytes.take(n)),
    ensures
        valid_first_scalar(bytes),
        length_of_first_scalar(bytes) <= n,
{
    let front = bytes.take(n);
    assert(front[0] == bytes[0]);
    assert(valid_first_scalar(front));
    if n >= 2 {
        assert(front[1] == bytes[1]);
    }
    if n >= 3 {
        assert(front[2] == bytes[2]);
    }
    if n >= 4 {
        assert(front[3] == bytes[3]);
    }
}

/// Whether the second byte may follow the first.
fn second_byte_fits(first: u8, second: u8) -> (r: bool)
    ensures
        r == second_fits(first, second),
{
    if first == 0xe0 {
        0xa0 <= second && second <= 0xbf
    } else if first == 0xed {
        0x80 <= second && second <= 0x9f
    } else if first == 0xf0 {
        0x90 <= second && second <= 0xbf
    } else if first == 0xf4 {
        0x80 <= second && second <= 0x8f
    } else {
        0xe1 <= first && first <= 0xf3 && 0x80 <= second && second <= 0xbf
    }
}

/// The first character of bytes, or its replacement, and how many bytes it takes.
fn front(bytes: &[u8], from: usize) -> (r: (Option<String>, usize))
    requires
        from < bytes.len(),
    ensures
        r.1 == front_len(bytes@.skip(from as int)),
        1 <= r.1 <= bytes.len() - from,
        match r.0 {
            Some(text) => valid_first_scalar(bytes@.skip(from as int)) && text@ == seq![
                decode_first_scalar(bytes@.skip(from as int)) as char,
            ],
            None => !valid_first_scalar(bytes@.skip(from as int)),
        },
{
    let ghost rest = bytes@.skip(from as int);
    let mut piece: Vec<u8> = Vec::new();
    let mut n: usize = 0;
    assert(rest.take(0) =~= Seq::empty());
    while n < 4 && n < bytes.len() - from
        invariant
            from < bytes.len(),
            rest == bytes@.skip(from as int),
            n <= 4,
            n <= bytes.len() - from,
            piece@ == rest.take(n as int),
            forall|k: int| 1 <= k <= n ==> !valid_utf8(#[trigger] rest.take(k)),
        decreases 4 - n,
    {
        piece.push(bytes[from + n]);
        n = n + 1;
        assert(piece@ =~= rest.take(n as int));
        let copy: Vec<u8> = piece.clone();
        assert(copy@ =~= piece@);
        match text_from_utf8(copy) {
            Ok(text) => {
                proof {
                    lemma_valid_front(rest, n as int);
                    lemma_front_valid(rest);
                }
                return (Some(text), n);
            },
            Err(_) => {},
        }
    }
    proof {
        if valid_first_scalar(rest) {
            lemma_front_valid(rest);
            assert(!valid_utf8(rest.take(length_of_first_scalar(rest))));
        }
    }
    let left: usize = bytes.len() - from;
    if left < 2 || !second_byte_fits(bytes[from], bytes[from + 1]) {
        return (None, 1);
    }
    if bytes[from] >= 0xf0 && left >= 3 && 0x80 <= bytes[from + 2] && bytes[from + 2] <= 0xbf {
        return (None, 3);
    }
    (None, 2)
}

/// Append the text of bytes.
pub fn push_utf8_lossy(text: &mut String, bytes: &[u8])
    ensures
        final(text)@ == old(text)@ + lossy_text(bytes@),
{
    let mut at: usize = 0;
    assert(bytes@.skip(0) =~= bytes@);
    while at < bytes.len()
        invariant
            at <= bytes.len(),
            text@ + lossy_text(bytes@.skip(at as int)) == old(text)@ + lossy_text(bytes@),
        decreases bytes.len() - at,
    {
        let ghost rest = bytes@.skip(at as int);
        let ghost before = text@;
        let (first, taken) = front(bytes, at);
        match first {
            Some(piece) => {
                text.append(piece.as_str());
            },
            None => {
                push_char(text, REPLACEMENT);
            },
        }
        assert(rest.skip(taken as int) =~= bytes@.skip(at + taken));
        assert(text@ + lossy_text(rest.skip(taken as int)) =~= before + lossy_text(rest));
        at = at + taken;
    }
    assert(text@ + lossy_text(bytes@.skip(at as int)) =~= text@);
}

/// How many bytes the text of bytes takes; `None` where the number does not fit.
pub fn lossy_utf8_len(bytes: &[u8]) -> (r: Option<usize>)
    ensures
        r == if utf8_len(lossy_text(bytes@)) <= usize::MAX {
            Some(utf8_len(lossy_text(bytes@)) as usize)
        } else {
            None
        },
{
    let mut length: usize = 0;
    let ghost mut done = Seq::<char>::empty();
    let mut at: usize = 0;
    proof {
        assert(bytes@.skip(0) =~= bytes@);
        assert(done + lossy_text(bytes@) =~= lossy_text(bytes@));
        lemma_no_text_no_bytes();
    }
    while at < bytes.len()
        invariant
            at <= bytes.len(),
            length == utf8_len(done),
            done + lossy_text(bytes@.skip(at as int)) == lossy_text(bytes@),
        decreases bytes.len() - at,
    {
        let ghost rest = bytes@.skip(at as int);
        let ghost before = done;
        let (first, taken) = front(bytes, at);
        let mut piece = String::new();
        match first {
            Some(text) => {
                piece = text;
            },
            None => {
                push_char(&mut piece, REPLACEMENT);
            },
        }
        let size: usize = text_len(piece.as_str());
        proof {
            let ch = piece@[0];
            assert(piece@ =~= seq![ch]);
            lemma_utf8_push(before, ch);
            done = before.push(ch);
            assert(rest.skip(taken as int) =~= bytes@.skip(at + taken));
            assert(done + lossy_text(rest.skip(taken as int)) =~= before + lossy_text(rest));
            lemma_utf8_grows(done, lossy_text(rest.skip(taken as int)));
        }
        length = match length.checked_add(size) {
            Some(total) => total,
            None => {
                return None;
            },
        };
        at = at + taken;
    }
    assert(done + lossy_text(bytes@.skip(at as int)) =~= done);
    Some(length)
}

proof fn lemma_no_text_no_bytes()
    ensures
        utf8_len(Seq::<char>::empty()) == 0,
{
}

/// A text is not shorter than its first part.
proof fn lemma_utf8_grows(text: Seq<char>, more: Seq<char>)
    ensures
        utf8_len(text) <= utf8_len(text + more),
    decreases more.len(),
{
    if more.len() == 0 {
        assert(text + more =~= text);
    } else {
        lemma_utf8_grows(text, more.drop_last());
        lemma_utf8_push(text + more.drop_last(), more.last());
        assert((text + more.drop_last()).push(more.last()) =~= text + more);
    }
}

} // verus!
