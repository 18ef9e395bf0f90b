//! What watches a running guest: the epoch watchdog and the output reader.

use vstd::prelude::*;

use crate::command::{SessionEvent, Stream};

verus! {

/// Nanoseconds between two epoch ticks.
pub const TICK_NANOS: u128 = 100_000_000;

/// What a watchdog does next.
#[derive(Clone, Copy, Debug, PartialEq, Eq, Structural)]
pub enum WatchStep {
    /// Wait one tick for the guest to finish.
    Wait,
    /// Advance the engine's epoch by this many ticks.
    Advance(u64),
    /// Stop watching.
    Stop,
}

/// Advances the engine's epoch so that a guest past its deadline is interrupted.
#[derive(Debug)]
pub struct Watchdog {
    ticks: u64,
    epoch_ticks: u64,
}

/// What a [`Watchdog`] stands for.
#[verifier::ext_equal]
pub struct WatchdogView {
    /// Ticks by which the epoch was advanced so far.
    pub ticks: nat,
    /// Ticks after which the guest is interrupted.
    pub deadline: nat,
}

impl View for Watchdog {
    type V = WatchdogView;

    closed spec fn view(&self) -> WatchdogView {
        WatchdogView { ticks: self.ticks as nat, deadline: self.epoch_ticks as nat }
    }
}

impl WatchdogView {
    /// A watchdog that has done nothing yet.
    pub open spec fn fresh(deadline: nat) -> WatchdogView {
        WatchdogView { ticks: 0, deadline }
    }

    /// What the watchdog does next.
    pub open spec fn check(self, cancelled: bool) -> WatchStep {
        if cancelled {
            WatchStep::Advance(self.deadline as u64)
        } else if self.ticks >= self.deadline {
            WatchStep::Stop
        } else {
            WatchStep::Wait
        }
    }

    /// What the watchdog does after it waited.
    pub open spec fn waited(self, finished: bool) -> WatchStep {
        if finished {
            WatchStep::Stop
        } else {
            WatchStep::Advance(1)
        }
    }

    /// The watchdog after it waited.
    pub open spec fn after_wait(self, finished: bool) -> WatchdogView {
        if finished {
            self
        } else {
            WatchdogView { ticks: self.ticks + 1, ..self }
        }
    }

    /// The watchdog after it waited out a number of ticks.
    pub open spec fn after_ticks(self, count: nat) -> WatchdogView
        decreases count,
    {
        if count == 0 {
            self
        } else {
            self.after_ticks((count - 1) as nat).after_wait(false)
        }
    }
}

impl Watchdog {
    /// Watch a guest that is interrupted after `epoch_ticks` ticks.
    pub fn new(epoch_ticks: u64) -> (watchdog: Self)
        ensures
            watchdog@ == WatchdogView::fresh(epoch_ticks as nat),
    {
        Watchdog { ticks: 0, epoch_ticks }
    }

    /// Decide what to do next.
    ///
    /// A cancelled guest is interrupted at once: the epoch is advanced past its deadline instead
    /// of waiting out the wall-clock timeout, and the watchdog is done.
    pub fn check(&self, cancelled: bool) -> (step: WatchStep)
        ensures
            step == self@.check(cancelled),
    {
        if cancelled {
            WatchStep::Advance(self.epoch_ticks)
        } else if self.ticks >= self.epoch_ticks {
            WatchStep::Stop
        } else {
            WatchStep::Wait
        }
    }

    /// Decide what to do after one tick of waiting, in which the guest finished or did not.
    pub fn waited(&mut self, finished: bool) -> (step: WatchStep)
        requires
            old(self)@.check(false) == WatchStep::Wait,
        ensures
            step == old(self)@.waited(finished),
            final(self)@ == old(self)@.after_wait(finished),
    {
        if finished {
            return WatchStep::Stop;
        }
        self.ticks = self.ticks + 1;
        WatchStep::Advance(1)
    }
}

/// A guest that neither finishes nor is cancelled is watched for exactly its deadline: before it
/// the watchdog waits, and at it the epoch has reached the deadline and the watchdog stops.
pub proof fn law_watchdog_reaches_the_deadline(deadline: nat, count: nat)
    requires
        count <= deadline,
    ensures
        WatchdogView::fresh(deadline).after_ticks(count).ticks == count,
        WatchdogView::fresh(deadline).after_ticks(count).check(false) == (if count < deadline {
            WatchStep::Wait
        } else {
            WatchStep::Stop
        }),
    decreases count,
{
    lemma_after_ticks(WatchdogView::fresh(deadline), count);
}

/// Waiting out ticks advances the epoch by as many.
proof fn lemma_after_ticks(start: WatchdogView, count: nat)
    ensures
        start.after_ticks(count) == (WatchdogView { ticks: start.ticks + count, ..start }),
    decreases count,
{
    if count > 0 {
        lemma_after_ticks(start, (count - 1) as nat);
    }
}

/// Whenever a guest is cancelled, the epoch ends up at or past its deadline.
pub proof fn law_cancellation_reaches_the_deadline(deadline: u64, count: nat)
    ensures
        WatchdogView::fresh(deadline as nat).after_ticks(count).check(true) matches WatchStep::Advance(
            burst,
        ) && WatchdogView::fresh(deadline as nat).after_ticks(count).ticks + burst >= deadline,
{
    lemma_after_ticks(WatchdogView::fresh(deadline as nat), count);
}

/// What the output reader asks for after it looked at both streams.
#[derive(Clone, Copy, Debug, PartialEq, Eq, Structural)]
pub struct ReaderStep {
    /// Ticks by which to advance the engine's epoch.
    pub advance: u64,
    /// Both streams ended.
    pub done: bool,
}

/// Collects what a guest writes, turns it into events, and watches its deadline.
#[derive(Debug)]
pub struct OutputReader {
    stdout: Vec<u8>,
    stderr: Vec<u8>,
    last_tick: u128,
    epoch_ticks: u64,
}

/// What an [`OutputReader`] stands for.
#[verifier::ext_equal]
pub struct ReaderView {
    /// Everything read from standard output.
    pub stdout: Seq<u8>,
    /// Everything read from standard error.
    pub stderr: Seq<u8>,
    /// When the epoch was last advanced, in nanoseconds.
    pub last_tick: nat,
    /// Ticks after which the guest is interrupted.
    pub deadline: nat,
}

impl View for OutputReader {
    type V = ReaderView;

    closed spec fn view(&self) -> ReaderView {
        ReaderView {
            stdout: self.stdout@,
            stderr: self.stderr@,
            last_tick: self.last_tick as nat,
            deadline: self.epoch_ticks as nat,
        }
    }
}

impl ReaderView {
    /// A reader that has read nothing yet.
    pub open spec fn fresh(deadline: nat, now: nat) -> ReaderView {
        ReaderView { stdout: Seq::empty(), stderr: Seq::empty(), last_tick: now, deadline }
    }

    /// Everything read from one stream.
    pub open spec fn read_from(self, stream: Stream) -> Seq<u8> {
        match stream {
            Stream::Stdout => self.stdout,
            Stream::Stderr => self.stderr,
        }
    }

    /// The reader after one more chunk of a stream.
    pub open spec fn after_chunk(self, stream: Stream, bytes: Seq<u8>) -> ReaderView {
        match stream {
            Stream::Stdout => ReaderView { stdout: self.stdout + bytes, ..self },
            Stream::Stderr => ReaderView { stderr: self.stderr + bytes, ..self },
        }
    }

    /// The reader after a list of chunks.
    pub open spec fn after_chunks(self, chunks: Seq<(Stream, Seq<u8>)>) -> ReaderView
        decreases chunks.len(),
    {
        if chunks.len() == 0 {
            self
        } else {
            self.after_chunks(chunks.drop_last()).after_chunk(chunks.last().0, chunks.last().1)
        }
    }

    /// Whether it is time to advance the epoch.
    pub open spec fn tick_due(self, now: nat) -> bool {
        now >= self.last_tick + TICK_NANOS
    }

    /// What the reader asks for.
    pub open spec fn asks(
        self,
        cancelled: bool,
        now: nat,
        stdout_eof: bool,
        stderr_eof: bool,
    ) -> ReaderStep {
        ReaderStep {
            advance: if cancelled {
                self.deadline as u64
            } else if self.tick_due(now) {
                1
            } else {
                0
            },
            done: stdout_eof && stderr_eof,
        }
    }

    /// The reader after it asked.
    pub open spec fn after_asking(self, cancelled: bool, now: nat) -> ReaderView {
        if !cancelled && self.tick_due(now) {
            ReaderView { last_tick: now, ..self }
        } else {
            self
        }
    }
}

/// The bytes of one stream in a list of chunks, in order.
pub open spec fn stream_bytes(chunks: Seq<(Stream, Seq<u8>)>, stream: Stream) -> Seq<u8>
    decreases chunks.len(),
{
    if chunks.len() == 0 {
        Seq::empty()
    } else if chunks.last().0 == stream {
        stream_bytes(chunks.drop_last(), stream) + chunks.last().1
    } else {
        stream_bytes(chunks.drop_last(), stream)
    }
}

/// What was captured of a stream is what was streamed of it, chunk after chunk.
pub proof fn law_captured_output_is_what_was_streamed(
    deadline: nat,
    now: nat,
    chunks: Seq<(Stream, Seq<u8>)>,
    stream: Stream,
)
    ensures
        ReaderView::fresh(deadline, now).after_chunks(chunks).read_from(stream)
            == stream_bytes(chunks, stream),
    decreases chunks.len(),
{
    if chunks.len() > 0 {
        law_captured_output_is_what_was_streamed(deadline, now, chunks.drop_last(), stream);
    }
}

/// Whenever a guest is cancelled, the reader asks for enough ticks to pass the deadline.
pub proof fn law_reader_cancellation_reaches_the_deadline(
    reader: ReaderView,
    now: nat,
    stdout_eof: bool,
    stderr_eof: bool,
)
    requires
        reader.deadline <= u64::MAX,
    ensures
        reader.asks(true, now, stdout_eof, stderr_eof).advance == reader.deadline,
{
}

impl OutputReader {
    /// Start reading a guest's output at time `now`, in nanoseconds.
    pub fn new(epoch_ticks: u64, now: u128) -> (reader: Self)
        ensures
            reader@ == ReaderView::fresh(epoch_ticks as nat, now as nat),
    {
        OutputReader { stdout: Vec::new(), stderr: Vec::new(), last_tick: now, epoch_ticks }
    }

    /// Take in one chunk and make the event for it; an empty chunk makes none.
    pub fn collect(&mut self, stream: Stream, bytes: Vec<u8>) -> (event: Option<SessionEvent>)
        ensures
            final(self)@ == old(self)@.after_chunk(stream, bytes@),
            event == (if bytes@.len() == 0 {
                None::<SessionEvent>
            } else {
                Some(SessionEvent::Output { stream, bytes })
            }),
    {
        if bytes.len() == 0 {
            assert(self@ =~= self@.after_chunk(stream, bytes@));
            return None;
        }
        match stream {
            Stream::Stdout => {
                self.stdout.extend_from_slice(bytes.as_slice());
                assert(self.stdout@ =~= old(self).stdout@ + bytes@);
            },
            Stream::Stderr => {
                self.stderr.extend_from_slice(bytes.as_slice());
                assert(self.stderr@ =~= old(self).stderr@ + bytes@);
            },
        }
        Some(SessionEvent::Output { stream, bytes })
    }

    /// Decide what to do once both streams were looked at.
    pub fn step(
        &mut self,
        cancelled: bool,
        now: u128,
        stdout_eof: bool,
        stderr_eof: bool,
    ) -> (step: ReaderStep)
        ensures
            step == old(self)@.asks(cancelled, now as nat, stdout_eof, stderr_eof),
            final(self)@ == old(self)@.after_asking(cancelled, now as nat),
    {
        let due = now >= self.last_tick && now - self.last_tick >= TICK_NANOS;
        let advance: u64 = if cancelled {
            self.epoch_ticks
        } else if due {
            1
        } else {
            0
        };
        if !cancelled && due {
            self.last_tick = now;
        }
        ReaderStep { advance, done: stdout_eof && stderr_eof }
    }

    /// Everything that was read from each stream.
    pub fn into_output(self) -> (output: (Vec<u8>, Vec<u8>))
        ensures
            output.0@ == self@.stdout,
            output.1@ == self@.stderr,
    {
        (self.stdout, self.stderr)
    }
}

/// By how many ticks a watchdog step advances the epoch.
pub open spec fn advance_of(step: WatchStep) -> nat {
    match step {
        WatchStep::Advance(ticks) => ticks as nat,
        _ => 0,
    }
}

/// The ticks by which a run of waits advances the epoch, where the guest did not finish in any.
pub open spec fn advance_over(watchdog: WatchdogView, count: nat) -> nat
    decreases count,
{
    if count == 0 {
        0
    } else {
        advance_over(watchdog, (count - 1) as nat) + advance_of(
            watchdog.after_ticks((count - 1) as nat).waited(false),
        )
    }
}

/// A watchdog gives up on a guest only when the guest is done: while it is not, every wait advances
/// the epoch by one tick and counts it, however many there were before. A wait in which the guest
/// finished stops the watchdog and counts nothing.
pub proof fn law_every_wait_advances_the_epoch(watchdog: WatchdogView)
    ensures
        watchdog.waited(false) == WatchStep::Advance(1),
        watchdog.after_wait(false).ticks == watchdog.ticks + 1,
        watchdog.after_wait(false).deadline == watchdog.deadline,
        watchdog.waited(true) == WatchStep::Stop,
        watchdog.after_wait(true) == watchdog,
{
}

/// What the waits hand out adds up to what is counted: over any run of waits the epoch advances by
/// as many ticks as the count grows. So the epoch has reached the deadline when the watchdog first
/// stops of itself, and not before.
pub proof fn law_advances_add_up_to_the_deadline(start: WatchdogView, count: nat)
    ensures
        start.after_ticks(count).ticks == start.ticks + advance_over(start, count),
        start.after_ticks(count).deadline == start.deadline,
        start.ticks == 0 && start.after_ticks(count).check(false) == WatchStep::Wait
            ==> advance_over(start, count) < start.deadline,
        start.ticks == 0 && start.after_ticks(count).check(false) == WatchStep::Stop
            ==> advance_over(start, count) >= start.deadline,
        start.ticks == 0 && count == start.deadline ==> advance_over(start, count) == start.deadline
            && start.after_ticks(count).check(false) == WatchStep::Stop,
    decreases count,
{
    if count > 0 {
        law_advances_add_up_to_the_deadline(start, (count - 1) as nat);
        law_every_wait_advances_the_epoch(start.after_ticks((count - 1) as nat));
        lemma_after_ticks(start, count);
        lemma_after_ticks(start, (count - 1) as nat);
    }
}

/// What a watchdog does next, said of its count and its deadline: it goes on waiting exactly while
/// the guest is not cancelled and the deadline is not reached, and it never stops watching a
/// cancelled guest without having sent the epoch past the deadline.
pub proof fn law_watchdogs_wait_until_the_deadline(watchdog: WatchdogView, cancelled: bool)
    requires
        watchdog.deadline <= u64::MAX,
    ensures
        watchdog.check(cancelled) == WatchStep::Wait <==> !cancelled && watchdog.ticks
            < watchdog.deadline,
        watchdog.check(cancelled) == WatchStep::Stop <==> !cancelled && watchdog.ticks
            >= watchdog.deadline,
        cancelled ==> advance_of(watchdog.check(cancelled)) >= watchdog.deadline,
{
}

/// Ten ticks make a second.
pub proof fn law_ten_ticks_make_a_second()
    ensures
        10 * TICK_NANOS == 1_000_000_000,
{
}

/// What a reader asks for, said of the time that passed: one tick exactly if a tick's worth of time
/// went by since the last one and the guest is not cancelled, at once everything up to the deadline
/// if it is, and nothing otherwise. It is done exactly if both streams ended.
pub proof fn law_readers_keep_the_time(
    reader: ReaderView,
    cancelled: bool,
    now: nat,
    stdout_eof: bool,
    stderr_eof: bool,
)
    requires
        0 < reader.deadline <= u64::MAX,
    ensures
        ({
            let step = reader.asks(cancelled, now, stdout_eof, stderr_eof);
            let after = reader.after_asking(cancelled, now);
            &&& step.done <==> stdout_eof && stderr_eof
            &&& cancelled ==> step.advance == reader.deadline
            &&& !cancelled && now - reader.last_tick >= TICK_NANOS ==> step.advance == 1
                && after.last_tick == now
            &&& !cancelled && now - reader.last_tick < TICK_NANOS ==> step.advance == 0
                && after.last_tick == reader.last_tick
            &&& after.deadline == reader.deadline
            &&& after.stdout == reader.stdout
            &&& after.stderr == reader.stderr
        }),
{
}

/// A chunk of one stream is added to what was read of that stream and changes nothing else.
pub proof fn law_chunks_stay_with_their_stream(reader: ReaderView, bytes: Seq<u8>)
    ensures
        ({
            let out = reader.after_chunk(Stream::Stdout, bytes);
            let err = reader.after_chunk(Stream::Stderr, bytes);
            &&& out.stdout == reader.stdout + bytes
            &&& out.stderr == reader.stderr
            &&& err.stderr == reader.stderr + bytes
            &&& err.stdout == reader.stdout
            &&& out.last_tick == reader.last_tick && err.last_tick == reader.last_tick
            &&& out.deadline == reader.deadline && err.deadline == reader.deadline
        }),
{
}

} // verus!
