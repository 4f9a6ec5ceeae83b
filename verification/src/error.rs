//! Errors of the source and the decoder, and how the controller reads them.

use vstd::prelude::*;

verus! {

/// The class of a failure reported by the source reader, the decoder or a
/// sink.
#[derive(Clone, Copy, Debug, PartialEq, Eq, Structural)]
pub enum ErrorKind {
    /// An I/O failure other than an unexpected end of the input.
    Io,
    /// The input ended where more was expected.
    UnexpectedEof,
    /// One packet could not be decoded; the next one may be.
    Decode,
    /// A seek could not be carried out.
    Seek,
    /// The stream uses a feature that is not supported.
    Unsupported,
    /// A limit was reached while reading or decoding.
    Limit,
    /// The tracks of the stream changed: they must be read again and a
    /// track selected anew.
    ResetRequired,
    /// A sink could not be opened or refused a block.
    Sink,
}

/// A failure, with the text it is reported with.
#[derive(Clone, Debug, PartialEq, Eq)]
pub struct StreamError {
    pub kind: ErrorKind,
    pub message: String,
}

/// The one failure that means that the stream is complete: an unexpected end
/// of input whose text is exactly "end of stream".
pub open spec fn is_end_of_stream(err: StreamError) -> bool {
    err.kind == ErrorKind::UnexpectedEof && err.message@ == "end of stream"@
}

/// The status that a finished decoder's verification outcome stands for.
pub open spec fn verification_status(verify_ok: Option<bool>) -> i32 {
    match verify_ok {
        Some(false) => 1,
        _ => 0,
    }
}

/// The process exit status of a terminal result.
pub open spec fn status_of(result: Result<i32, StreamError>) -> i32 {
    match result {
        Ok(code) => code,
        Err(_) => -1i32,
    }
}

/// Tells whether `err` is the end-of-stream signal.
pub fn end_of_stream(err: &StreamError) -> (is: bool)
    ensures
        is == is_end_of_stream(*err),
{
    match err.kind {
        ErrorKind::UnexpectedEof => err.message == "end of stream".to_owned(),
        _ => false,
    }
}

/// Turns the end-of-stream signal into success and leaves every other result
/// as it is.
pub fn ignore_end_of_stream_error(result: Result<(), StreamError>) -> (out: Result<
    (),
    StreamError,
>)
    ensures
        out == if result is Err && is_end_of_stream(result->Err_0) {
            Ok::<(), StreamError>(())
        } else {
            result
        },
{
    let complete = match &result {
        Err(err) => end_of_stream(err),
        Ok(_) => false,
    };
    if complete {
        Ok(())
    } else {
        result
    }
}

/// The status for a decoder's verification outcome: 1 where verification ran
/// and failed, 0 where it passed, was not asked for or is not supported.
pub fn do_verification(verify_ok: Option<bool>) -> (code: i32)
    ensures
        code == verification_status(verify_ok),
{
    match verify_ok {
        Some(is_ok) => {
            if is_ok {
                0
            } else {
                1
            }
        },
        None => 0,
    }
}

/// The process exit status: the code of a successful run, -1 for any fatal
/// error.
pub fn exit_status(result: &Result<i32, StreamError>) -> (code: i32)
    ensures
        code == status_of(*result),
{
    match result {
        Ok(code) => *code,
        Err(_) => -1,
    }
}

} // verus!
