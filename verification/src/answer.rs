//! Reading a bounded line of input.

use vstd::prelude::*;
use vstd::string::*;
use vstd::utf8::{decode_utf8, valid_utf8};
use crate::sink::{IoError, IoErrorKind};
use crate::text::{decimal, decimal_text, text_from_utf8, utf8_error_text};

verus! {

/// Something that bytes are read from: a terminal, a pipe, memory.
pub trait ByteSource {
    /// The next byte; `None` at the end.
    fn next_byte(&mut self) -> (r: Result<Option<u8>, IoError>);
}

/// Bytes in memory, read from front to back.
#[derive(Debug)]
pub struct ByteCursor {
    pub bytes: Vec<u8>,
    pub position: usize,
}

impl ByteCursor {
    pub fn new(bytes: Vec<u8>) -> (r: ByteCursor)
        ensures
            r.bytes == bytes,
            r.position == 0,
    {
        ByteCursor { bytes, position: 0 }
    }
}

impl ByteSource for ByteCursor {
    fn next_byte(&mut self) -> (r: Result<Option<u8>, IoError>)
        ensures
            final(self).bytes == old(self).bytes,
            r == Ok::<Option<u8>, IoError>(
                if old(self).position < old(self).bytes.len() {
                    Some(old(self).bytes@[old(self).position as int])
                } else {
                    None
                },
            ),
            final(self).position == if r->Ok_0 is Some {
                old(self).position + 1
            } else {
                old(self).position as int
            },
    {
        if self.position < self.bytes.len() {
            let byte: u8 = self.bytes[self.position];
            self.position = self.position + 1;
            Ok(Some(byte))
        } else {
            Ok(None)
        }
    }
}

/// An input over a source, which remembers what was read from it: the bytes, how often
/// it was at its end, and the failures.
pub struct Input<B> {
    pub source: B,
    pub taken: Ghost<Seq<u8>>,
    pub ends: Ghost<nat>,
    pub failures: Ghost<Seq<IoError>>,
}

impl<B: ByteSource> Input<B> {
    pub fn new(source: B) -> (r: Input<B>)
        ensures
            r.source == source,
            r.taken@.len() == 0,
            r.ends@ == 0,
            r.failures@.len() == 0,
    {
        Input { source, taken: Ghost(Seq::empty()), ends: Ghost(0), failures: Ghost(Seq::empty()) }
    }

    fn next_byte(&mut self) -> (r: Result<Option<u8>, IoError>)
        ensures
            final(self).taken@ == match r {
                Ok(Some(byte)) => old(self).taken@.push(byte),
                _ => old(self).taken@,
            },
            final(self).ends@ == match r {
                Ok(None) => old(self).ends@ + 1,
                _ => old(self).ends@,
            },
            final(self).failures@ == match r {
                Err(error) => old(self).failures@.push(error),
                _ => old(self).failures@,
            },
    {
        let result = self.source.next_byte();
        proof {
            match result {
                Ok(Some(byte)) => {
                    self.taken@ = self.taken@.push(byte);
                },
                Ok(None) => {
                    self.ends@ = self.ends@ + 1;
                },
                Err(_) => {
                    self.failures@ = self.failures@.push(result->Err_0);
                },
            }
        }
        result
    }
}

/// These bytes are the start of a line: a line break ends them if they hold one, and
/// they stay within the limit.
pub open spec fn within_line(line: Seq<u8>, limit: nat) -> bool {
    &&& line.len() <= limit
    &&& forall|i: int| 0 <= i < line.len() - 1 ==> #[trigger] line[i] != 10
}

/// Nothing more belongs to the line: its line break is there, or it is as long as the
/// limit.
pub open spec fn line_done(line: Seq<u8>, limit: nat) -> bool {
    (line.len() > 0 && line.last() == 10) || line.len() == limit
}

/// A line without its line break.
pub open spec fn unframed(line: Seq<u8>) -> Seq<u8> {
    if line.len() > 0 && line.last() == 10 {
        let body = line.drop_last();
        if body.len() > 0 && body.last() == 13 {
            body.drop_last()
        } else {
            body
        }
    } else {
        line
    }
}

/// What a line of input is worth as an answer: too long, not text, or its text.
pub open spec fn answers(line: Seq<u8>, max_bytes: nat, r: Result<String, IoError>) -> bool {
    let body = unframed(line);
    if body.len() > max_bytes {
        r is Err && r->Err_0.kind == IoErrorKind::InvalidInput && r->Err_0.message@
            == "confirmation input exceeds the "@ + decimal(max_bytes) + "-byte limit"@
    } else if !valid_utf8(body) {
        r is Err && r->Err_0.kind == IoErrorKind::InvalidData && r->Err_0.message@
            == utf8_error_text(body)
    } else {
        r is Ok && r->Ok_0@ == decode_utf8(body)
    }
}

/// What decoding an answer came to: its text, or an error that says what the decoder said.
pub fn answer_from_decoded(decoded: Result<String, String>) -> (r: Result<String, IoError>)
    ensures
        r == match decoded {
            Ok(text) => Ok::<String, IoError>(text),
            Err(message) => Err(IoError { kind: IoErrorKind::InvalidData, message }),
        },
{
    match decoded {
        Ok(text) => Ok(text),
        Err(message) => Err(IoError { kind: IoErrorKind::InvalidData, message }),
    }
}

/// Turn a line of input into an answer.
pub fn answer_from_line(line: Vec<u8>, max_bytes: usize) -> (r: Result<String, IoError>)
    ensures
        answers(line@, max_bytes as nat, r),
{
    let mut bytes = line;
    if bytes.len() > 0 && bytes[bytes.len() - 1] == 10 {
        bytes.pop();
        assert(bytes@ =~= line@.drop_last());
        if bytes.len() > 0 && bytes[bytes.len() - 1] == 13 {
            bytes.pop();
            assert(bytes@ =~= line@.drop_last().drop_last());
        }
    }
    assert(bytes@ == unframed(line@));
    if bytes.len() > max_bytes {
        let mut text = "confirmation input exceeds the ".to_owned();
        text.append(decimal_text(max_bytes as u128).as_str());
        text.append("-byte limit");
        return Err(IoError { kind: IoErrorKind::InvalidInput, message: text });
    }
    answer_from_decoded(text_from_utf8(bytes))
}

/// The most bytes that are read for an answer: room for a line break of two bytes.
pub open spec fn read_limit(max_bytes: usize) -> nat {
    if max_bytes + 2 <= usize::MAX {
        (max_bytes + 2) as nat
    } else {
        usize::MAX as nat
    }
}

/// What reading one line amounts to. All that was read is the start of one line. Either
/// the source failed, once, and its failure is handed on; or what was read is the whole
/// line, which gives the answer: the source said that it was at its end only where
/// neither a line break nor the limit came first, and then once.
pub open spec fn line_answered<B>(
    before: Input<B>,
    after: Input<B>,
    max_bytes: usize,
    r: Result<String, IoError>,
) -> bool {
    let line = after.taken@.skip(before.taken@.len() as int);
    &&& after.taken@ == before.taken@ + line
    &&& within_line(line, read_limit(max_bytes))
    &&& line_outcome(line, before, after, max_bytes, r)
}

/// How the reading of a line came to its end.
pub open spec fn line_outcome<B>(
    line: Seq<u8>,
    before: Input<B>,
    after: Input<B>,
    max_bytes: usize,
    r: Result<String, IoError>,
) -> bool {
    ||| {
        &&& r is Err
        &&& after.failures@ == before.failures@.push(r->Err_0)
        &&& after.ends@ == before.ends@
        &&& !line_done(line, read_limit(max_bytes))
    }
    ||| {
        &&& after.failures@ == before.failures@
        &&& after.ends@ == before.ends@ + (if line_done(line, read_limit(max_bytes)) {
            0nat
        } else {
            1nat
        })
        &&& answers(line, max_bytes as nat, r)
    }
}

/// Read one line as an answer. At most two bytes more than the limit are taken, so that
/// a line of exactly that length fits with its line break.
pub fn read_confirmation_line_from<B: ByteSource>(
    reader: &mut Input<B>,
    max_bytes: usize,
) -> (r: Result<String, IoError>)
    ensures
        line_answered(*old(reader), *final(reader), max_bytes, r),
{
    let limit: usize = max_bytes.saturating_add(2);
    let ghost before = reader.taken@;
    let mut line: Vec<u8> = Vec::new();
    let mut more: bool = true;
    assert(before + line@ =~= before);
    while more && line.len() < limit
        invariant
            limit == read_limit(max_bytes),
            before == old(reader).taken@,
            reader.taken@ == before + line@,
            within_line(line@, limit as nat),
            more ==> line.len() == 0 || line@.last() != 10,
            more ==> reader.ends@ == old(reader).ends@,
            !more ==> reader.ends@ == old(reader).ends@ + (if line_done(line@, limit as nat) {
                0nat
            } else {
                1nat
            }),
            reader.failures@ == old(reader).failures@,
        decreases limit - line.len(), (if more { 1int } else { 0int }),
    {
        match reader.next_byte() {
            Ok(Some(byte)) => {
                line.push(byte);
                assert(reader.taken@ =~= before + line@);
                if byte == 10 {
                    more = false;
                }
            },
            Ok(None) => {
                more = false;
            },
            Err(error) => {
                assert(reader.taken@.skip(before.len() as int) =~= line@);
                return Err(error);
            },
        }
    }
    assert(reader.taken@.skip(before.len() as int) =~= line@);
    answer_from_line(line, max_bytes)
}

} // verus!
