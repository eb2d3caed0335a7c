use kickoutchi::sink::{
    forgive_closed_pipe, write_cli_stdout, write_diagnostic, write_line, BoundedRecord, IoError,
    IoErrorKind, Output, Writer,
};
use kickoutchi::watch_output::{
    exit_after_flush, output_failure, OutputError, PublicOutputError,
};
use kickoutchi::exit::ExitReason;
use kickoutchi::watch_record::emit;

struct FailingWriter(IoErrorKind);

impl Writer for FailingWriter {
    fn write_all(&mut self, _: &[u8]) -> Result<(), IoError> {
        Err(IoError::new(self.0, "injected"))
    }

    fn flush(&mut self) -> Result<(), IoError> {
        Ok(())
    }
}

fn failing(kind: IoErrorKind) -> Output<FailingWriter> {
    Output::new(FailingWriter(kind))
}

#[test]
fn help_output_treats_a_closed_pipe_as_success() {
    assert!(write_cli_stdout(&mut failing(IoErrorKind::BrokenPipe), "help").is_ok());
}

#[test]
fn help_output_preserves_non_pipe_write_failures() {
    let error = write_cli_stdout(&mut failing(IoErrorKind::PermissionDenied), "help")
        .expect_err("permission errors must remain failures");

    assert_eq!(error.kind, IoErrorKind::PermissionDenied);
}

#[test]
fn help_output_reaches_the_writer_whole() {
    let mut output = BoundedRecord::new();
    assert_eq!(write_cli_stdout(&mut output, "usage: kick …\n"), Ok(()));
    assert_eq!(output.bytes, "usage: kick …\n".as_bytes());
    assert_eq!(forgive_closed_pipe(Ok(())), Ok(()));
}

#[test]
fn diagnostics_are_single_prefixed_lines() {
    let mut output = BoundedRecord::new();
    write_diagnostic(&mut output, "nothing to do");
    write_line(&mut output, "plain");
    assert_eq!(output.bytes, b"error: nothing to do\nplain\n");
}

#[test]
fn output_failures_are_told_but_a_closed_pipe_is_not() {
    let tell = |error: OutputError| {
        let mut diagnostics = BoundedRecord::new();
        let reason = output_failure(&mut diagnostics, &error);
        (reason, String::from_utf8(diagnostics.bytes).unwrap())
    };
    assert_eq!(tell(OutputError::BrokenPipe), (ExitReason::Success, String::new()));
    let (reason, text) = tell(OutputError::Io(IoError::new(IoErrorKind::Other, "disk full")));
    assert_eq!(reason, ExitReason::Failure);
    assert!(text.contains("disk full"), "{text}");
    let (reason, text) =
        tell(OutputError::Public(PublicOutputError::Serialization("too deep".to_owned())));
    assert_eq!(reason, ExitReason::Failure);
    assert!(text.contains("too deep"), "{text}");
    assert_eq!(tell(OutputError::EventLimit).0, ExitReason::Failure);

    assert_eq!(
        OutputError::from_io(IoError::new(IoErrorKind::BrokenPipe, "gone")),
        OutputError::BrokenPipe
    );
    assert_eq!(
        OutputError::from_public(PublicOutputError::Io(IoError::new(
            IoErrorKind::BrokenPipe,
            "gone"
        ))),
        OutputError::BrokenPipe
    );
    let mut diagnostics = BoundedRecord::new();
    assert_eq!(
        exit_after_flush(
            Err(IoError::new(IoErrorKind::Other, "late")),
            &mut diagnostics,
            ExitReason::Success
        ),
        ExitReason::Failure
    );
}

struct LateWriter {
    flush_error: Option<IoErrorKind>,
    write_error: Option<IoErrorKind>,
    flushes: usize,
}

impl Writer for LateWriter {
    fn write_all(&mut self, _: &[u8]) -> Result<(), IoError> {
        match self.write_error {
            Some(kind) => Err(IoError::new(kind, "write")),
            None => Ok(()),
        }
    }

    fn flush(&mut self) -> Result<(), IoError> {
        self.flushes += 1;
        match self.flush_error {
            Some(kind) => Err(IoError::new(kind, "flush")),
            None => Ok(()),
        }
    }
}

#[test]
fn help_output_is_flushed_once_it_was_taken() {
    let run = |write_error, flush_error| {
        let mut output = Output::new(LateWriter { flush_error, write_error, flushes: 0 });
        let result = write_cli_stdout(&mut output, "help");
        (result, output.writer.flushes)
    };

    assert_eq!(run(None, None), (Ok(()), 1));
    assert_eq!(
        run(None, Some(IoErrorKind::Other)),
        (Err(IoError::new(IoErrorKind::Other, "flush")), 1)
    );
    assert_eq!(run(None, Some(IoErrorKind::BrokenPipe)), (Ok(()), 1));
    assert_eq!(
        run(Some(IoErrorKind::Other), None),
        (Err(IoError::new(IoErrorKind::Other, "write")), 0)
    );
    assert_eq!(run(Some(IoErrorKind::BrokenPipe), None), (Ok(()), 0));
}

#[test]
fn a_refused_record_carries_the_error_of_its_writer() {
    assert_eq!(
        emit(&mut failing(IoErrorKind::BrokenPipe), b"{}\n"),
        Err(OutputError::BrokenPipe)
    );
    assert_eq!(
        emit(&mut failing(IoErrorKind::PermissionDenied), b"{}\n"),
        Err(OutputError::Io(IoError::new(IoErrorKind::PermissionDenied, "injected")))
    );
    let mut output = BoundedRecord::new();
    assert_eq!(emit(&mut output, b"{}\n"), Ok(()));
    assert_eq!(output.bytes, b"{}\n");
}
