//! The epoch watchdog and the output reader.

use wasi_runtime::command::{SessionEvent, Stream};
use wasi_runtime::watch::{OutputReader, ReaderStep, WatchStep, Watchdog};

#[test]
fn the_watchdog_waits_out_exactly_the_deadline() {
    let mut watchdog = Watchdog::new(3);
    for _ in 0..3 {
        assert_eq!(watchdog.check(false), WatchStep::Wait);
        assert_eq!(watchdog.waited(false), WatchStep::Advance(1));
    }
    assert_eq!(watchdog.check(false), WatchStep::Stop);
}

#[test]
fn a_finished_guest_stops_the_watchdog() {
    let mut watchdog = Watchdog::new(3);
    assert_eq!(watchdog.check(false), WatchStep::Wait);
    assert_eq!(watchdog.waited(true), WatchStep::Stop);
}

#[test]
fn cancellation_bursts_past_the_deadline() {
    let mut watchdog = Watchdog::new(600);
    assert_eq!(watchdog.waited(false), WatchStep::Advance(1));
    assert_eq!(watchdog.check(true), WatchStep::Advance(600));
}

#[test]
fn the_reader_turns_chunks_into_events_and_keeps_them() {
    let mut reader = OutputReader::new(10, 0);
    assert_eq!(reader.collect(Stream::Stdout, vec![]), None);
    assert_eq!(
        reader.collect(Stream::Stdout, b"ab".to_vec()),
        Some(SessionEvent::Output { stream: Stream::Stdout, bytes: b"ab".to_vec() })
    );
    assert_eq!(
        reader.collect(Stream::Stderr, b"x".to_vec()),
        Some(SessionEvent::Output { stream: Stream::Stderr, bytes: b"x".to_vec() })
    );
    reader.collect(Stream::Stdout, b"c".to_vec());
    assert_eq!(reader.into_output(), (b"abc".to_vec(), b"x".to_vec()));
}

#[test]
fn the_reader_ticks_every_tenth_of_a_second() {
    let step = |advance: u64, done: bool| ReaderStep { advance, done };
    let mut reader = OutputReader::new(10, 1_000);
    assert_eq!(reader.step(false, 1_000, false, false), step(0, false));
    assert_eq!(reader.step(false, 100_000_999, false, false), step(0, false));
    assert_eq!(reader.step(false, 100_001_000, false, false), step(1, false));
    assert_eq!(reader.step(false, 100_001_001, false, false), step(0, false));
    assert_eq!(reader.step(true, 100_001_002, true, false), step(10, false));
    assert_eq!(reader.step(false, 300_000_000, true, true), step(1, true));
    // A clock that runs backwards never ticks.
    assert_eq!(reader.step(false, 0, false, true), step(0, false));
}
