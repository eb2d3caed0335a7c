//! Byte output and its failures.

use vstd::prelude::*;
use vstd::string::*;
use vstd::utf8::encode_utf8;
use crate::text::{sanitize, sanitized};

verus! {

/// What kind of failure an input or output operation had.
#[derive(Debug, Clone, Copy, PartialEq, Eq, Structural)]
pub enum IoErrorKind {
    BrokenPipe,
    WouldBlock,
    PermissionDenied,
    InvalidInput,
    InvalidData,
    Other,
}

/// A failed input or output operation.
#[derive(Debug, PartialEq, Eq)]
pub struct IoError {
    pub kind: IoErrorKind,
    pub message: String,
}

impl IoError {
    pub fn new(kind: IoErrorKind, message: &str) -> (r: IoError)
        ensures
            r.kind == kind,
            r.message@ == message@,
    {
        IoError { kind, message: message.to_owned() }
    }
}

/// `after` is `before` with a first part of `bytes` behind it.
pub open spec fn accepted_part(before: Seq<u8>, after: Seq<u8>, bytes: Seq<u8>) -> bool {
    exists|n: int| 0 <= n <= bytes.len() && after == before + #[trigger] bytes.take(n)
}

/// Somewhere bytes are written to.
pub trait Sink {
    /// The bytes accepted so far.
    spec fn written(&self) -> Seq<u8>;

    /// Some operation has failed.
    spec fn failed(&self) -> bool;

    /// What the flushes so far came to, the oldest first.
    spec fn flushed(&self) -> Seq<Result<(), IoError>>;

    /// Why writes were refused so far, the oldest first.
    spec fn refused(&self) -> Seq<IoError>;

    /// Write all bytes; a failed write may have accepted the first of them.
    fn write_all(&mut self, bytes: &[u8]) -> (r: Result<(), IoError>)
        ensures
            final(self).flushed() == old(self).flushed(),
            final(self).refused() == match r {
                Ok(()) => old(self).refused(),
                Err(error) => old(self).refused().push(error),
            },
            accepted_part(old(self).written(), final(self).written(), bytes@),
            r is Ok ==> final(self).written() == old(self).written() + bytes@,
            r is Err ==> final(self).failed(),
            old(self).failed() ==> final(self).failed(),
    ;

    /// Hand on what was accepted.
    fn flush(&mut self) -> (r: Result<(), IoError>)
        ensures
            final(self).flushed() == old(self).flushed().push(r),
            final(self).refused() == old(self).refused(),
            final(self).written() == old(self).written(),
            r is Err ==> final(self).failed(),
            old(self).failed() ==> final(self).failed(),
    ;
}

/// Something that takes bytes: a file, a pipe, a terminal, memory.
pub trait Writer {
    fn write_all(&mut self, bytes: &[u8]) -> (r: Result<(), IoError>);

    fn flush(&mut self) -> (r: Result<(), IoError>);
}

/// An output over a writer, which remembers what its writer took.
pub struct Output<W> {
    pub writer: W,
    pub taken: Ghost<Seq<u8>>,
    pub broken: Ghost<bool>,
    pub flushes: Ghost<Seq<Result<(), IoError>>>,
    pub refusals: Ghost<Seq<IoError>>,
}

impl<W: Writer> Output<W> {
    pub fn new(writer: W) -> (r: Output<W>)
        ensures
            r.writer == writer,
            r.written().len() == 0,
            !r.failed(),
            r.flushed().len() == 0,
            r.refused().len() == 0,
    {
        Output {
            writer,
            taken: Ghost(Seq::empty()),
            broken: Ghost(false),
            flushes: Ghost(Seq::empty()),
            refusals: Ghost(Seq::empty()),
        }
    }
}

impl<W: Writer> Sink for Output<W> {
    open spec fn written(&self) -> Seq<u8> {
        self.taken@
    }

    open spec fn failed(&self) -> bool {
        self.broken@
    }

    open spec fn flushed(&self) -> Seq<Result<(), IoError>> {
        self.flushes@
    }

    open spec fn refused(&self) -> Seq<IoError> {
        self.refusals@
    }

    fn write_all(&mut self, bytes: &[u8]) -> (r: Result<(), IoError>) {
        let result = self.writer.write_all(bytes);
        proof {
            if result is Ok {
                self.taken@ = self.taken@ + bytes@;
                assert(bytes@.take(bytes@.len() as int) =~= bytes@);
            } else {
                self.broken@ = true;
                self.refusals@ = self.refusals@.push(result->Err_0);
                assert(self.taken@ + bytes@.take(0) =~= self.taken@);
            }
        }
        result
    }

    fn flush(&mut self) -> (r: Result<(), IoError>) {
        let result = self.writer.flush();
        proof {
            self.broken@ = self.broken@ || result is Err;
            self.flushes@ = self.flushes@.push(result);
        }
        result
    }
}

/// The most bytes that one watch record may take, its line break included.
pub const WATCH_RECORD_MAX_BYTES: usize = 65_536;

/// A record under construction, which refuses to outgrow its bound.
pub struct BoundedRecord {
    pub bytes: Vec<u8>,
    pub limit_exceeded: bool,
    pub flushes: Ghost<Seq<Result<(), IoError>>>,
    pub refusals: Ghost<Seq<IoError>>,
}

impl BoundedRecord {
    pub open spec fn wf(self) -> bool {
        self.bytes.len() <= WATCH_RECORD_MAX_BYTES
    }

    pub fn new() -> (r: BoundedRecord)
        ensures
            r.bytes@.len() == 0,
            !r.limit_exceeded,
            r.flushed().len() == 0,
            r.refused().len() == 0,
            r.wf(),
    {
        BoundedRecord {
            bytes: Vec::with_capacity(4_096),
            limit_exceeded: false,
            flushes: Ghost(Seq::empty()),
            refusals: Ghost(Seq::empty()),
        }
    }

    /// Append bytes that fit; bytes that do not fit are refused whole and the
    /// refusal is remembered.
    pub fn write(&mut self, bytes: &[u8]) -> (r: Result<usize, IoError>)
        ensures
            old(self).bytes.len() + bytes@.len() <= WATCH_RECORD_MAX_BYTES ==> {
                &&& r == Ok::<usize, IoError>(bytes.len())
                &&& final(self).bytes@ == old(self).bytes@ + bytes@
                &&& final(self).limit_exceeded == old(self).limit_exceeded
            },
            old(self).bytes.len() + bytes@.len() > WATCH_RECORD_MAX_BYTES ==> {
                &&& r is Err
                &&& r->Err_0.kind == IoErrorKind::InvalidData
                &&& r->Err_0.message@ == "watch record exceeds 64 KiB"@
                &&& final(self).bytes@ == old(self).bytes@
                &&& final(self).limit_exceeded
            },
            final(self).flushed() == old(self).flushed(),
            final(self).refused() == match r {
                Ok(_) => old(self).refused(),
                Err(error) => old(self).refused().push(error),
            },
            old(self).wf() ==> final(self).wf(),
    {
        let fits: bool = match self.bytes.len().checked_add(bytes.len()) {
            Some(length) => length <= WATCH_RECORD_MAX_BYTES,
            None => false,
        };
        if !fits {
            self.limit_exceeded = true;
            let error = IoError::new(IoErrorKind::InvalidData, "watch record exceeds 64 KiB");
            proof {
                self.refusals@ = self.refusals@.push(error);
            }
            return Err(error);
        }
        self.bytes.extend_from_slice(bytes);
        assert(self.bytes@ =~= old(self).bytes@ + bytes@);
        Ok(bytes.len())
    }
}

impl Sink for BoundedRecord {
    open spec fn written(&self) -> Seq<u8> {
        self.bytes@
    }

    open spec fn failed(&self) -> bool {
        self.limit_exceeded
    }

    open spec fn flushed(&self) -> Seq<Result<(), IoError>> {
        self.flushes@
    }

    open spec fn refused(&self) -> Seq<IoError> {
        self.refusals@
    }

    fn write_all(&mut self, bytes: &[u8]) -> (r: Result<(), IoError>) {
        let ghost before = self.bytes@;
        match self.write(bytes) {
            Ok(_) => {
                assert(bytes@.take(bytes@.len() as int) =~= bytes@);
                Ok(())
            },
            Err(error) => {
                assert(before + bytes@.take(0) =~= before);
                Err(error)
            },
        }
    }

    fn flush(&mut self) -> (r: Result<(), IoError>) {
        let result: Result<(), IoError> = Ok(());
        proof {
            self.flushes@ = self.flushes@.push(result);
        }
        result
    }
}

/// What a finished write means to a command: a reader that has gone away is no
/// failure.
pub open spec fn forgiven(result: Result<(), IoError>) -> Result<(), IoError> {
    match result {
        Ok(()) => Ok(()),
        Err(error) => if error.kind == IoErrorKind::BrokenPipe {
            Ok(())
        } else {
            Err(error)
        },
    }
}

/// Forgive a reader that has gone away.
pub fn forgive_closed_pipe(result: Result<(), IoError>) -> (r: Result<(), IoError>)
    ensures
        r == forgiven(result),
{
    match result {
        Ok(()) => Ok(()),
        Err(error) => if error.kind == IoErrorKind::BrokenPipe {
            Ok(())
        } else {
            Err(error)
        },
    }
}

/// A command's output was written and handed on, once. Where the write was refused, nothing
/// was handed on. A reader that has gone away is no failure.
pub open spec fn handed_on<W: Sink>(
    before: W,
    after: W,
    bytes: Seq<u8>,
    r: Result<(), IoError>,
) -> bool {
    ||| {
        &&& after.refused() == before.refused().push(after.refused().last())
        &&& accepted_part(before.written(), after.written(), bytes)
        &&& after.flushed() == before.flushed()
        &&& r == forgiven(Err(after.refused().last()))
    }
    ||| {
        &&& after.refused() == before.refused()
        &&& after.written() == before.written() + bytes
        &&& after.flushed() == before.flushed().push(after.flushed().last())
        &&& r == forgiven(after.flushed().last())
    }
}

/// Write a command's output and hand it on.
pub fn write_cli_stdout<W: Sink>(writer: &mut W, text: &str) -> (r: Result<(), IoError>)
    ensures
        handed_on(*old(writer), *final(writer), encode_utf8(text@), r),
        accepted_part(old(writer).written(), final(writer).written(), encode_utf8(text@)),
        r is Err ==> r->Err_0.kind != IoErrorKind::BrokenPipe && final(writer).failed(),
        !final(writer).failed() ==> r is Ok && final(writer).written() == old(writer).written()
            + encode_utf8(text@),
{
    let result = match writer.write_all(text.as_bytes()) {
        Ok(()) => writer.flush(),
        Err(error) => Err(error),
    };
    forgive_closed_pipe(result)
}

/// The bytes of lines, one after the other.
pub open spec fn lines_bytes(lines: Seq<Seq<char>>) -> Seq<u8>
    decreases lines.len(),
{
    if lines.len() == 0 {
        Seq::empty()
    } else {
        lines_bytes(lines.drop_last()) + encode_utf8(lines.last() + seq!['\n'])
    }
}

/// An output was told lines. A line that is refused is dropped, so this says what was
/// written where none was.
pub open spec fn said<W: Sink>(before: W, after: W, lines: Seq<Seq<char>>) -> bool {
    &&& before.refused().is_prefix_of(after.refused())
    &&& after.refused() == before.refused() ==> after.written() == before.written()
        + lines_bytes(lines)
    &&& before.failed() ==> after.failed()
}

pub proof fn lemma_lines_bytes_add(first: Seq<Seq<char>>, second: Seq<Seq<char>>)
    ensures
        lines_bytes(first + second) == lines_bytes(first) + lines_bytes(second),
    decreases second.len(),
{
    if second.len() == 0 {
        assert(first + second =~= first);
        assert(lines_bytes(first) + lines_bytes(second) =~= lines_bytes(first));
    } else {
        assert((first + second).drop_last() =~= first + second.drop_last());
        lemma_lines_bytes_add(first, second.drop_last());
        assert(lines_bytes(first + second) =~= lines_bytes(first) + lines_bytes(second));
    }
}

pub proof fn lemma_one_line(line: Seq<char>)
    ensures
        lines_bytes(seq![line]) == encode_utf8(line + seq!['\n']),
{
    assert(seq![line].drop_last() =~= Seq::<Seq<char>>::empty());
    assert(lines_bytes(Seq::empty()) =~= Seq::empty());
    assert(lines_bytes(seq![line]) =~= encode_utf8(line + seq!['\n']));
}

/// Lines told after lines.
pub proof fn lemma_said_more<W: Sink>(
    before: W,
    middle: W,
    after: W,
    first: Seq<Seq<char>>,
    second: Seq<Seq<char>>,
)
    requires
        said(before, middle, first),
        said(middle, after, second),
    ensures
        said(before, after, first + second),
{
    lemma_lines_bytes_add(first, second);
    if after.refused() == before.refused() {
        assert(middle.refused() =~= before.refused());
    }
    assert(before.written() + lines_bytes(first) + lines_bytes(second) =~= before.written() + (
    lines_bytes(first) + lines_bytes(second)));
}

/// Nothing was told.
pub proof fn lemma_said_nothing<W: Sink>(output: W)
    ensures
        said(output, output, Seq::empty()),
{
    assert(output.written() + lines_bytes(Seq::empty()) =~= output.written());
}

/// The text of the line that reports a problem.
pub open spec fn problem_line(message: Seq<char>) -> Seq<char> {
    "error: "@ + sanitized(message)
}

/// The line that reports a problem.
pub open spec fn diagnostic_line(message: Seq<char>) -> Seq<char> {
    problem_line(message) + seq!['\n']
}

/// Report a problem; a diagnostic that cannot be written is dropped.
pub fn write_diagnostic<W: Sink>(writer: &mut W, message: &str)
    ensures
        accepted_part(
            old(writer).written(),
            final(writer).written(),
            encode_utf8(diagnostic_line(message@)),
        ),
        final(writer).refused() == old(writer).refused() ==> final(writer).written() == old(
            writer,
        ).written() + encode_utf8(diagnostic_line(message@)),
        old(writer).failed() ==> final(writer).failed(),
        said(*old(writer), *final(writer), seq![problem_line(message@)]),
        final(writer).flushed() == old(writer).flushed().push(final(writer).flushed().last()),
{
    proof {
        lemma_one_line(problem_line(message@));
    }
    let mut line = "error: ".to_owned();
    line.append(sanitize(message).as_str());
    proof {
        reveal_strlit("\n");
    }
    line.append("\n");
    assert(line@ =~= diagnostic_line(message@));
    let result = writer.write_all(line.as_str().as_bytes());
    assert(result is Err ==> writer.refused().len() > old(writer).refused().len());
    let _ = writer.flush();
}

/// Write one line; a line that cannot be written is dropped.
pub fn write_line<W: Sink>(writer: &mut W, text: &str)
    ensures
        accepted_part(
            old(writer).written(),
            final(writer).written(),
            encode_utf8(text@ + seq!['\n']),
        ),
        final(writer).refused() == old(writer).refused() ==> final(writer).written() == old(
            writer,
        ).written() + encode_utf8(text@ + seq!['\n']),
        old(writer).failed() ==> final(writer).failed(),
        said(*old(writer), *final(writer), seq![text@]),
        final(writer).flushed() == old(writer).flushed(),
{
    proof {
        lemma_one_line(text@);
    }
    let mut line = text.to_owned();
    proof {
        reveal_strlit("\n");
    }
    line.append("\n");
    assert(line@ =~= text@ + seq!['\n']);
    let result = writer.write_all(line.as_str().as_bytes());
    assert(result is Err ==> writer.refused().len() > old(writer).refused().len());
}

/// The texts of lines.
pub open spec fn line_texts(lines: Seq<String>) -> Seq<Seq<char>> {
    lines.map_values(|line: String| line@)
}

/// Write lines, one after the other.
pub fn write_lines<W: Sink>(writer: &mut W, lines: &Vec<String>)
    ensures
        said(*old(writer), *final(writer), line_texts(lines@)),
{
    let ghost all = line_texts(lines@);
    let mut i: usize = 0;
    proof {
        lemma_said_nothing(*old(writer));
        assert(all.take(0) =~= Seq::empty());
    }
    while i < lines.len()
        invariant
            i <= lines.len(),
            all == line_texts(lines@),
            said(*old(writer), *writer, all.take(i as int)),
        decreases lines.len() - i,
    {
        let ghost middle = *writer;
        write_line(writer, lines[i].as_str());
        proof {
            lemma_said_more(
                *old(writer),
                middle,
                *writer,
                all.take(i as int),
                seq![lines@[i as int]@],
            );
            assert(all.take(i + 1) =~= all.take(i as int) + seq![lines@[i as int]@]);
        }
        i = i + 1;
    }
    assert(all.take(all.len() as int) =~= all);
}

} // verus!
