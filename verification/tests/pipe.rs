//! Bounded output pipes.

use wasi_runtime::command::Stream;
use wasi_runtime::pipe::{OutputStreams, StreamError, StreamOutputPipe};

#[test]
fn written_bytes_are_drained_incrementally() {
    let mut pipe = StreamOutputPipe::new(1024);
    pipe.write(b"hello ").expect("write succeeds");

    let (first, _) = pipe.drain();
    assert_eq!(first, b"hello ");
    let (second, _) = pipe.drain();
    assert!(second.is_empty(), "nothing new was written");
}

#[test]
fn eof_is_reported_after_set_eof() {
    let mut pipe = StreamOutputPipe::new(1024);
    assert!(pipe.is_idle());
    pipe.set_eof();
    assert!(!pipe.is_idle());
    let (bytes, eof) = pipe.drain();
    assert!(bytes.is_empty());
    assert!(eof);
}

#[test]
fn write_beyond_capacity_is_a_trap() {
    let mut pipe = StreamOutputPipe::new(4);
    pipe.write(b"1234").expect("fits exactly");
    assert!(matches!(pipe.write(b"5"), Err(StreamError::Trap(_))));
}

#[test]
fn full_pipe_reports_closed_on_check_write() {
    let mut pipe = StreamOutputPipe::new(2);
    pipe.write(b"ab").expect("fills the pipe");
    assert!(matches!(pipe.check_write(), Err(StreamError::Closed)));
}

#[test]
fn closed_pipe_rejects_further_writes() {
    let mut pipe = StreamOutputPipe::new(1024);
    pipe.close();
    assert!(matches!(pipe.write(b"x"), Err(StreamError::Closed)));
    assert!(matches!(pipe.check_write(), Err(StreamError::Closed)));
    // A reader still drains what was written before the close.
    pipe.set_eof();
    let (bytes, eof) = pipe.drain();
    assert!(bytes.is_empty());
    assert!(eof);
}

#[test]
fn close_is_idempotent_and_keeps_buffered_bytes() {
    let mut pipe = StreamOutputPipe::new(1024);
    pipe.write(b"abc").expect("write succeeds");
    pipe.close();
    pipe.close();
    assert!(matches!(pipe.write(b"d"), Err(StreamError::Closed)));
    assert_eq!(pipe.contents(), b"abc");
}

#[test]
fn async_write_errors_instead_of_reporting_zero() {
    let mut pipe = StreamOutputPipe::new(2);
    pipe.write(b"ab").expect("fills the pipe");
    let result = pipe.poll_write(b"c");
    assert!(result.is_err(), "full pipe must error, got {result:?}");
}

#[test]
fn contents_returns_everything_written() {
    let mut pipe = StreamOutputPipe::new(1024);
    pipe.write(b"ab").expect("write succeeds");
    let _ = pipe.drain();
    pipe.write(b"cd").expect("write succeeds");
    assert_eq!(pipe.contents(), b"abcd");
}

#[test]
fn partial_writes_take_what_fits() {
    let mut pipe = StreamOutputPipe::new(5);
    assert_eq!(pipe.check_write(), Ok(5));
    assert_eq!(pipe.poll_write(b"abc"), Ok(3));
    assert_eq!(pipe.check_write(), Ok(2));
    assert_eq!(pipe.poll_write(b"defg"), Ok(2));
    assert_eq!(pipe.poll_write(b"h"), Err(StreamError::Closed));
    assert_eq!(pipe.drain(), (b"abcde".to_vec(), false));
    assert!(pipe.is_idle());
}

#[test]
fn a_failed_write_writes_nothing() {
    let mut pipe = StreamOutputPipe::new(3);
    pipe.write(b"a").expect("fits");
    assert_eq!(
        pipe.write(b"bcd"),
        Err(StreamError::Trap("write beyond capacity of StreamOutputPipe"))
    );
    assert_eq!(pipe.contents(), b"a");
    pipe.write(b"bc").expect("still fits");
    assert_eq!(pipe.contents(), b"abc");
}

#[test]
fn an_empty_write_fits_a_full_pipe() {
    let mut pipe = StreamOutputPipe::new(0);
    pipe.write(b"").expect("nothing fits");
    assert_eq!(pipe.check_write(), Err(StreamError::Closed));
}

#[test]
fn both_streams_share_one_budget() {
    let mut streams = OutputStreams::new(10);
    streams.write(Stream::Stdout, b"123456").expect("fits");
    assert_eq!(streams.check_write(Stream::Stderr), Ok(4));
    streams.write(Stream::Stderr, b"abc").expect("fits");
    assert_eq!(streams.check_write(Stream::Stdout), Ok(1));
    assert_eq!(
        streams.write(Stream::Stdout, b"78"),
        Err(StreamError::Trap("write beyond the combined output budget"))
    );
    // The guest is cut off: nothing more gets through on either stream.
    assert_eq!(streams.write(Stream::Stdout, b"7"), Err(StreamError::Closed));
    assert_eq!(streams.write(Stream::Stderr, b"d"), Err(StreamError::Closed));
    assert_eq!(streams.check_write(Stream::Stdout), Err(StreamError::Closed));
    assert_eq!(streams.poll_write(Stream::Stderr, b"d"), Err(StreamError::Closed));
    // What was written before is still there for the reader.
    assert_eq!(streams.drain(Stream::Stdout), (b"123456".to_vec(), false));
    assert_eq!(streams.drain(Stream::Stderr), (b"abc".to_vec(), false));
}

#[test]
fn one_stream_alone_traps_at_its_own_capacity() {
    let mut streams = OutputStreams::new(4);
    assert_eq!(
        streams.write(Stream::Stderr, b"12345"),
        Err(StreamError::Trap("write beyond capacity of StreamOutputPipe"))
    );
    streams.write(Stream::Stderr, b"1234").expect("fits exactly");
    assert_eq!(streams.check_write(Stream::Stdout), Err(StreamError::Closed));
}

#[test]
fn partial_writes_respect_the_combined_budget() {
    let mut streams = OutputStreams::new(5);
    assert_eq!(streams.poll_write(Stream::Stdout, b"abc"), Ok(3));
    assert_eq!(streams.poll_write(Stream::Stderr, b"defg"), Ok(2));
    assert_eq!(streams.poll_write(Stream::Stdout, b"h"), Err(StreamError::Closed));
    assert_eq!(streams.drain(Stream::Stderr), (b"de".to_vec(), false));
}

#[test]
fn streams_end_one_by_one() {
    let mut streams = OutputStreams::new(5);
    assert!(streams.is_idle(Stream::Stdout));
    streams.write(Stream::Stdout, b"x").expect("fits");
    streams.set_eof(Stream::Stdout);
    assert!(!streams.is_idle(Stream::Stdout));
    assert!(streams.is_idle(Stream::Stderr));
    assert_eq!(streams.drain(Stream::Stdout), (b"x".to_vec(), true));
    assert_eq!(streams.drain(Stream::Stderr), (vec![], false));
}
