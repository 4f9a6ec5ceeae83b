use spectral_play::error::{
    do_verification, end_of_stream, exit_status, ignore_end_of_stream_error, ErrorKind, StreamError,
};

fn error(kind: ErrorKind, message: &str) -> StreamError {
    StreamError { kind, message: message.to_string() }
}

#[test]
fn end_of_stream_is_recognised() {
    assert!(end_of_stream(&error(ErrorKind::UnexpectedEof, "end of stream")));
    assert!(!end_of_stream(&error(ErrorKind::UnexpectedEof, "end of stream ")));
    assert!(!end_of_stream(&error(ErrorKind::UnexpectedEof, "End of stream")));
    assert!(!end_of_stream(&error(ErrorKind::UnexpectedEof, "")));
    assert!(!end_of_stream(&error(ErrorKind::Io, "end of stream")));
    assert!(!end_of_stream(&error(ErrorKind::Decode, "end of stream")));
    assert!(!end_of_stream(&error(ErrorKind::ResetRequired, "end of stream")));
}

#[test]
fn end_of_stream_becomes_success() {
    let eos = error(ErrorKind::UnexpectedEof, "end of stream");
    assert_eq!(ignore_end_of_stream_error(Err(eos)), Ok(()));
    assert_eq!(ignore_end_of_stream_error(Ok(())), Ok(()));
}

#[test]
fn other_errors_stay_as_they_are() {
    for kind in [
        ErrorKind::Io,
        ErrorKind::UnexpectedEof,
        ErrorKind::Decode,
        ErrorKind::Seek,
        ErrorKind::Unsupported,
        ErrorKind::Limit,
        ErrorKind::ResetRequired,
        ErrorKind::Sink,
    ] {
        let err = error(kind, "something else");
        assert_eq!(ignore_end_of_stream_error(Err(err.clone())), Err(err));
    }
    let err = error(ErrorKind::Io, "end of stream");
    assert_eq!(ignore_end_of_stream_error(Err(err.clone())), Err(err));
}

#[test]
fn verification_outcome_to_status() {
    assert_eq!(do_verification(Some(true)), 0);
    assert_eq!(do_verification(Some(false)), 1);
    assert_eq!(do_verification(None), 0);
}

#[test]
fn exit_status_of_results() {
    assert_eq!(exit_status(&Ok(0)), 0);
    assert_eq!(exit_status(&Ok(1)), 1);
    assert_eq!(exit_status(&Err(error(ErrorKind::Io, "broken"))), -1);
    assert_eq!(exit_status(&Err(error(ErrorKind::Sink, "no device"))), -1);
}
