//! Bounded, incrementally readable output pipes for live session streaming.
//!
//! A [`StreamOutputPipe`] caps what a guest may write (writing beyond capacity
//! traps the guest) while letting a reader drain bytes as they are produced,
//! which is what the UI-boundary event stream is built on.

use vstd::prelude::*;

use crate::command::Stream;

verus! {

/// Why a pipe refuses a write.
#[derive(Clone, Copy, Debug, PartialEq, Eq)]
pub enum StreamError {
    /// The pipe takes no more bytes.
    Closed,
    /// The write traps the guest.
    Trap(&'static str),
}

/// A bounded output pipe whose reader can drain bytes incrementally.
#[derive(Debug)]
pub struct StreamOutputPipe {
    capacity: usize,
    buffer: Vec<u8>,
    read_pos: usize,
    eof: bool,
    /// Host-side hard close: further writes fail even if capacity remains.
    /// Used to cut a guest off once the *combined* output budget is exhausted.
    closed: bool,
}

/// What a [`StreamOutputPipe`] stands for.
#[verifier::ext_equal]
pub struct PipeView {
    /// How many bytes the pipe takes in all.
    pub capacity: nat,
    /// Every byte written so far.
    pub written: Seq<u8>,
    /// How many of them the reader has drained.
    pub drained: nat,
    /// Whether the writer is done.
    pub eof: bool,
    /// Whether the host cut the writer off.
    pub closed: bool,
}

impl View for StreamOutputPipe {
    type V = PipeView;

    closed spec fn view(&self) -> PipeView {
        PipeView {
            capacity: self.capacity as nat,
            written: self.buffer@,
            drained: self.read_pos as nat,
            eof: self.eof,
            closed: self.closed,
        }
    }
}

impl PipeView {
    /// An empty, open pipe.
    pub open spec fn fresh(capacity: nat) -> PipeView {
        PipeView { capacity, written: Seq::empty(), drained: 0, eof: false, closed: false }
    }

    /// What every pipe keeps: no more bytes than it takes, none drained before it was written.
    pub open spec fn valid(self) -> bool {
        self.drained <= self.written.len() <= self.capacity
    }

    /// How many bytes the pipe still takes by count.
    pub open spec fn room(self) -> int {
        self.capacity - self.written.len()
    }

    /// What the reader has not seen yet.
    pub open spec fn unread(self) -> Seq<u8> {
        self.written.skip(self.drained as int)
    }

    /// Whether a reader has a reason to wait.
    pub open spec fn idle(self) -> bool {
        self.drained == self.written.len() && !self.eof
    }

    /// The pipe after some bytes were added.
    pub open spec fn with_bytes(self, bytes: Seq<u8>) -> PipeView {
        PipeView { written: self.written + bytes, ..self }
    }

    /// The pipe after a whole chunk is written, or why the write fails.
    pub open spec fn after_write(self, bytes: Seq<u8>) -> Result<PipeView, StreamError> {
        if self.closed {
            Err(StreamError::Closed)
        } else if bytes.len() > self.room() {
            Err(StreamError::Trap("write beyond capacity of StreamOutputPipe"))
        } else {
            Ok(self.with_bytes(bytes))
        }
    }

    /// How many bytes the next write may hold, or that none may be written.
    pub open spec fn permitted(self) -> Result<int, StreamError> {
        if self.closed || self.room() <= 0 {
            Err(StreamError::Closed)
        } else {
            Ok(self.room())
        }
    }

    /// How many of the offered bytes a partial write takes, if any may be written.
    pub open spec fn taken(self, offered: nat) -> Option<int> {
        if self.closed || self.room() <= 0 {
            None
        } else if offered <= self.room() {
            Some(offered as int)
        } else {
            Some(self.room())
        }
    }

    /// The pipe once the reader has seen everything.
    pub open spec fn after_drain(self) -> PipeView {
        PipeView { drained: self.written.len(), ..self }
    }
}

impl StreamOutputPipe {
    /// What every pipe keeps.
    pub open spec fn well_formed(&self) -> bool {
        self@.valid()
    }

    /// Create a pipe that traps a guest writing beyond `capacity` bytes.
    pub fn new(capacity: usize) -> (pipe: Self)
        ensures
            pipe.well_formed(),
            pipe@ == PipeView::fresh(capacity as nat),
    {
        StreamOutputPipe { capacity, buffer: Vec::new(), read_pos: 0, eof: false, closed: false }
    }

    /// Whether a reader should wait: nothing new was written and the writer is not done.
    pub fn is_idle(&self) -> (idle: bool)
        requires
            self.well_formed(),
        ensures
            idle == self@.idle(),
    {
        self.read_pos == self.buffer.len() && !self.eof
    }

    /// Drain everything written since the last call. Returns the drained bytes
    /// and whether the pipe has reached end-of-stream.
    pub fn drain(&mut self) -> (seen: (Vec<u8>, bool))
        requires
            old(self).well_formed(),
        ensures
            final(self).well_formed(),
            final(self)@ == old(self)@.after_drain(),
            seen.0@ == old(self)@.unread(),
            seen.1 == old(self)@.eof,
    {
        let bytes = copy_from(&self.buffer, self.read_pos);
        self.read_pos = self.buffer.len();
        (bytes, self.eof)
    }

    /// All bytes written so far, regardless of what the reader consumed.
    pub fn contents(&self) -> (bytes: Vec<u8>)
        ensures
            bytes@ == self@.written,
    {
        let bytes = copy_from(&self.buffer, 0);
        assert(bytes@ =~= self.buffer@);
        bytes
    }

    /// Signal end-of-stream, so that a reader can drain the tail and exit.
    pub fn set_eof(&mut self)
        requires
            old(self).well_formed(),
        ensures
            final(self).well_formed(),
            final(self)@ == (PipeView { eof: true, ..old(self)@ }),
    {
        self.eof = true;
    }

    /// Hard-close the pipe: every subsequent write fails (the guest traps)
    /// even while capacity remains. Used to enforce a combined output budget
    /// across streams. Idempotent.
    pub fn close(&mut self)
        requires
            old(self).well_formed(),
        ensures
            final(self).well_formed(),
            final(self)@ == (PipeView { closed: true, ..old(self)@ }),
    {
        self.closed = true;
    }

    /// Write a whole chunk, or fail without writing anything.
    pub fn write(&mut self, bytes: &[u8]) -> (done: Result<(), StreamError>)
        requires
            old(self).well_formed(),
        ensures
            final(self).well_formed(),
            match done {
                Ok(()) => old(self)@.after_write(bytes@) == Ok::<PipeView, StreamError>(
                    final(self)@,
                ),
                Err(error) => final(self)@ == old(self)@ && old(self)@.after_write(bytes@) == Err::<
                    PipeView,
                    StreamError,
                >(error),
            },
    {
        if self.closed {
            return Err(StreamError::Closed);
        }
        if bytes.len() > self.capacity - self.buffer.len() {
            return Err(StreamError::Trap("write beyond capacity of StreamOutputPipe"));
        }
        self.buffer.extend_from_slice(bytes);
        assert(self.buffer@ =~= old(self)@.written + bytes@);
        Ok(())
    }

    /// How many bytes the next write may hold. A full pipe is closed.
    pub fn check_write(&self) -> (room: Result<usize, StreamError>)
        requires
            self.well_formed(),
        ensures
            match room {
                Ok(bytes) => self@.permitted() == Ok::<int, StreamError>(bytes as int),
                Err(error) => self@.permitted() == Err::<int, StreamError>(error),
            },
    {
        if self.closed {
            return Err(StreamError::Closed);
        }
        let consumed = self.buffer.len();
        if consumed < self.capacity {
            Ok(self.capacity - consumed)
        } else {
            Err(StreamError::Closed)
        }
    }

    /// Write as much of a chunk as fits and say how much that was.
    ///
    /// A closed or full pipe reports an error: zero written bytes would tell the
    /// writer something else.
    pub fn poll_write(&mut self, bytes: &[u8]) -> (taken: Result<usize, StreamError>)
        requires
            old(self).well_formed(),
        ensures
            final(self).well_formed(),
            match taken {
                Ok(amount) => old(self)@.taken(bytes@.len()) == Some(amount as int) && final(self)@
                    == old(self)@.with_bytes(bytes@.take(amount as int)),
                Err(error) => old(self)@.taken(bytes@.len()) is None && error == StreamError::Closed
                    && final(self)@ == old(self)@,
            },
    {
        if self.closed || self.buffer.len() >= self.capacity {
            return Err(StreamError::Closed);
        }
        let room: usize = self.capacity - self.buffer.len();
        let amount: usize = if bytes.len() <= room {
            bytes.len()
        } else {
            room
        };
        let mut i: usize = 0;
        assert(old(self)@.written + bytes@.take(0) =~= old(self)@.written);
        while i < amount
            invariant
                i <= amount <= bytes.len(),
                self.read_pos == old(self).read_pos,
                self.eof == old(self).eof,
                self.closed == old(self).closed,
                self.capacity == old(self).capacity,
                self.buffer@ == old(self)@.written + bytes@.take(i as int),
            decreases amount - i,
        {
            self.buffer.push(bytes[i]);
            assert(bytes@.take(i + 1) =~= bytes@.take(i as int).push(bytes@[i as int]));
            i += 1;
        }
        Ok(amount)
    }
}

/// Both output pipes of one streamed guest, under one output budget.
///
/// Each pipe alone takes no more than the budget, and a chunk too large for its own pipe traps the
/// guest as it does without a partner. A chunk that its own pipe would take, but that brings both
/// together over the budget, traps the guest and hard-closes both pipes, so a guest cannot write
/// more than its budget by splitting its output across streams.
#[derive(Debug)]
pub struct OutputStreams {
    stdout: StreamOutputPipe,
    stderr: StreamOutputPipe,
    budget: usize,
}

/// What an [`OutputStreams`] stands for.
#[verifier::ext_equal]
pub struct StreamsView {
    /// Standard output.
    pub stdout: PipeView,
    /// Standard error.
    pub stderr: PipeView,
    /// How many bytes both take together.
    pub budget: nat,
}

impl View for OutputStreams {
    type V = StreamsView;

    closed spec fn view(&self) -> StreamsView {
        StreamsView { stdout: self.stdout@, stderr: self.stderr@, budget: self.budget as nat }
    }
}

impl StreamsView {
    /// Two empty, open pipes.
    pub open spec fn fresh(budget: nat) -> StreamsView {
        StreamsView { stdout: PipeView::fresh(budget), stderr: PipeView::fresh(budget), budget }
    }

    /// What every pair keeps: valid pipes that together hold no more than the budget.
    pub open spec fn valid(self) -> bool {
        &&& self.stdout.valid()
        &&& self.stderr.valid()
        &&& self.stdout.capacity == self.budget
        &&& self.stderr.capacity == self.budget
        &&& self.stdout.written.len() + self.stderr.written.len() <= self.budget
    }

    /// The pipe of one stream.
    pub open spec fn pipe(self, stream: Stream) -> PipeView {
        match stream {
            Stream::Stdout => self.stdout,
            Stream::Stderr => self.stderr,
        }
    }

    /// The pair with another pipe for one stream.
    pub open spec fn with_pipe(self, stream: Stream, pipe: PipeView) -> StreamsView {
        match stream {
            Stream::Stdout => StreamsView { stdout: pipe, ..self },
            Stream::Stderr => StreamsView { stderr: pipe, ..self },
        }
    }

    /// How many bytes both pipes still take together.
    pub open spec fn room(self) -> int {
        self.budget - self.stdout.written.len() - self.stderr.written.len()
    }

    /// The pair with both pipes hard-closed.
    pub open spec fn cut_off(self) -> StreamsView {
        StreamsView {
            stdout: PipeView { closed: true, ..self.stdout },
            stderr: PipeView { closed: true, ..self.stderr },
            ..self
        }
    }

    /// Why a write of this size to one stream fails, if it does.
    pub open spec fn write_error(self, stream: Stream, bytes: Seq<u8>) -> Option<StreamError> {
        match self.pipe(stream).after_write(bytes) {
            Err(error) => Some(error),
            Ok(_) => if bytes.len() > self.room() {
                Some(StreamError::Trap("write beyond the combined output budget"))
            } else {
                None
            },
        }
    }

    /// The pair after a write to one stream.
    pub open spec fn after_write(self, stream: Stream, bytes: Seq<u8>) -> StreamsView {
        match self.pipe(stream).after_write(bytes) {
            Err(_) => self,
            Ok(written) => if bytes.len() > self.room() {
                self.cut_off()
            } else {
                self.with_pipe(stream, written)
            },
        }
    }

    /// How many bytes the next write to a stream may hold, or that none may be written.
    pub open spec fn permitted(self, stream: Stream) -> Result<int, StreamError> {
        if self.pipe(stream).closed || self.room() <= 0 {
            Err(StreamError::Closed)
        } else {
            Ok(self.room())
        }
    }

    /// How many of the offered bytes a partial write takes, if any may be written.
    pub open spec fn taken(self, stream: Stream, offered: nat) -> Option<int> {
        if self.pipe(stream).closed || self.room() <= 0 {
            None
        } else if offered <= self.room() {
            Some(offered as int)
        } else {
            Some(self.room())
        }
    }
}

/// A guest that splits its output across both streams never gets more than its budget through: a
/// write over it fails and writes nothing, and once both pipes are closed nothing more gets through.
pub proof fn law_combined_budget_is_enforced(
    streams: StreamsView,
    stream: Stream,
    bytes: Seq<u8>,
    later_stream: Stream,
    later: Seq<u8>,
)
    requires
        streams.valid(),
    ensures
        streams.after_write(stream, bytes).valid(),
        bytes.len() > streams.room() ==> streams.write_error(stream, bytes) is Some
            && streams.after_write(stream, bytes).pipe(stream).written == streams.pipe(
            stream,
        ).written,
        streams.cut_off().write_error(later_stream, later) == Some(StreamError::Closed),
        streams.cut_off().after_write(later_stream, later) == streams.cut_off(),
        streams.cut_off().permitted(later_stream) is Err,
{
}

impl OutputStreams {
    /// What every pair keeps.
    pub open spec fn well_formed(&self) -> bool {
        self@.valid()
    }

    /// Create the pipes of a guest that may write `budget` bytes.
    pub fn new(budget: usize) -> (streams: Self)
        ensures
            streams.well_formed(),
            streams@ == StreamsView::fresh(budget as nat),
    {
        OutputStreams {
            stdout: StreamOutputPipe::new(budget),
            stderr: StreamOutputPipe::new(budget),
            budget,
        }
    }

    /// How many bytes both pipes still take together.
    fn room(&self) -> (room: usize)
        requires
            self.well_formed(),
        ensures
            room as int == self@.room(),
    {
        self.budget - self.stdout.buffer.len() - self.stderr.buffer.len()
    }

    /// Write a whole chunk to one stream, or fail without writing anything.
    ///
    /// A write over the combined budget cuts the guest off.
    pub fn write(&mut self, stream: Stream, bytes: &[u8]) -> (done: Result<(), StreamError>)
        requires
            old(self).well_formed(),
        ensures
            final(self).well_formed(),
            final(self)@ == old(self)@.after_write(stream, bytes@),
            match done {
                Ok(()) => old(self)@.write_error(stream, bytes@) is None,
                Err(error) => old(self)@.write_error(stream, bytes@) == Some(error),
            },
    {
        let room = self.room();
        let blocked = match stream {
            Stream::Stdout => self.stdout.closed || bytes.len() > self.stdout.capacity
                - self.stdout.buffer.len(),
            Stream::Stderr => self.stderr.closed || bytes.len() > self.stderr.capacity
                - self.stderr.buffer.len(),
        };
        if !blocked && bytes.len() > room {
            self.stdout.close();
            self.stderr.close();
            return Err(StreamError::Trap("write beyond the combined output budget"));
        }
        match stream {
            Stream::Stdout => self.stdout.write(bytes),
            Stream::Stderr => self.stderr.write(bytes),
        }
    }

    /// How many bytes the next write to a stream may hold. A spent budget is closed.
    pub fn check_write(&self, stream: Stream) -> (room: Result<usize, StreamError>)
        requires
            self.well_formed(),
        ensures
            match room {
                Ok(bytes) => self@.permitted(stream) == Ok::<int, StreamError>(bytes as int),
                Err(error) => self@.permitted(stream) == Err::<int, StreamError>(error),
            },
    {
        let closed = match stream {
            Stream::Stdout => self.stdout.closed,
            Stream::Stderr => self.stderr.closed,
        };
        let room = self.room();
        if closed || room == 0 {
            Err(StreamError::Closed)
        } else {
            Ok(room)
        }
    }

    /// Write as much of a chunk to one stream as fits and say how much that was.
    pub fn poll_write(&mut self, stream: Stream, bytes: &[u8]) -> (taken: Result<
        usize,
        StreamError,
    >)
        requires
            old(self).well_formed(),
        ensures
            final(self).well_formed(),
            match taken {
                Ok(amount) => old(self)@.taken(stream, bytes@.len()) == Some(amount as int)
                    && final(self)@ == old(self)@.with_pipe(
                    stream,
                    old(self)@.pipe(stream).with_bytes(bytes@.take(amount as int)),
                ),
                Err(error) => old(self)@.taken(stream, bytes@.len()) is None && error
                    == StreamError::Closed && final(self)@ == old(self)@,
            },
    {
        let closed = match stream {
            Stream::Stdout => self.stdout.closed,
            Stream::Stderr => self.stderr.closed,
        };
        let room = self.room();
        if closed || room == 0 {
            return Err(StreamError::Closed);
        }
        let amount: usize = if bytes.len() <= room {
            bytes.len()
        } else {
            room
        };
        let mut part: Vec<u8> = Vec::new();
        let mut i: usize = 0;
        while i < amount
            invariant
                i <= amount <= bytes.len(),
                part@ == bytes@.take(i as int),
            decreases amount - i,
        {
            part.push(bytes[i]);
            assert(bytes@.take(i + 1) =~= bytes@.take(i as int).push(bytes@[i as int]));
            i += 1;
        }
        let done = match stream {
            Stream::Stdout => self.stdout.write(part.as_slice()),
            Stream::Stderr => self.stderr.write(part.as_slice()),
        };
        assert(done is Ok);
        Ok(amount)
    }

    /// Whether a reader of one stream should wait.
    pub fn is_idle(&self, stream: Stream) -> (idle: bool)
        requires
            self.well_formed(),
        ensures
            idle == self@.pipe(stream).idle(),
    {
        match stream {
            Stream::Stdout => self.stdout.is_idle(),
            Stream::Stderr => self.stderr.is_idle(),
        }
    }

    /// Drain everything written to one stream since the last call.
    pub fn drain(&mut self, stream: Stream) -> (seen: (Vec<u8>, bool))
        requires
            old(self).well_formed(),
        ensures
            final(self).well_formed(),
            final(self)@ == old(self)@.with_pipe(stream, old(self)@.pipe(stream).after_drain()),
            seen.0@ == old(self)@.pipe(stream).unread(),
            seen.1 == old(self)@.pipe(stream).eof,
    {
        match stream {
            Stream::Stdout => self.stdout.drain(),
            Stream::Stderr => self.stderr.drain(),
        }
    }

    /// Signal the end of one stream.
    pub fn set_eof(&mut self, stream: Stream)
        requires
            old(self).well_formed(),
        ensures
            final(self).well_formed(),
            final(self)@ == old(self)@.with_pipe(
                stream,
                (PipeView { eof: true, ..old(self)@.pipe(stream) }),
            ),
    {
        match stream {
            Stream::Stdout => self.stdout.set_eof(),
            Stream::Stderr => self.stderr.set_eof(),
        }
    }
}

/// What a reader drains over time is what was written, in order and without loss: each drain hands
/// out exactly the bytes written since the one before.
pub proof fn law_drains_add_up(pipe: PipeView, bytes: Seq<u8>)
    requires
        pipe.valid(),
    ensures
        pipe.written.take(pipe.drained as int) + pipe.unread() == pipe.written,
        pipe.after_drain().unread() == Seq::<u8>::empty(),
        pipe.after_drain().with_bytes(bytes).unread() == bytes,
        pipe.with_bytes(bytes).unread() == pipe.unread() + bytes,
{
    assert(pipe.written.take(pipe.drained as int) + pipe.unread() =~= pipe.written);
    assert(pipe.after_drain().unread() =~= Seq::<u8>::empty());
    assert(pipe.after_drain().with_bytes(bytes).unread() =~= bytes);
    assert(pipe.with_bytes(bytes).unread() =~= pipe.unread() + bytes);
}

/// A permitted write succeeds: whatever size `check_write` allows, a chunk of at most that size can
/// be written, and nothing larger can.
pub proof fn law_permitted_writes_succeed(pipe: PipeView, bytes: Seq<u8>)
    requires
        pipe.valid(),
    ensures
        pipe.permitted() matches Ok(room) ==> room > 0 && (pipe.after_write(bytes) is Ok
            <==> bytes.len() <= room),
        pipe.permitted() is Err && bytes.len() > 0 ==> pipe.after_write(bytes) is Err,
        pipe.after_write(bytes) matches Ok(written) ==> written.valid() && written.written
            == pipe.written + bytes,
{
}

/// Closing keeps what was written and is idempotent; after it every write fails.
pub proof fn law_close_is_final(pipe: PipeView, bytes: Seq<u8>)
    ensures
        ({
            let shut = PipeView { closed: true, ..pipe };
            &&& shut.written == pipe.written
            &&& shut == (PipeView { closed: true, ..shut })
            &&& shut.after_write(bytes) == Err::<PipeView, StreamError>(StreamError::Closed)
            &&& shut.permitted() == Err::<int, StreamError>(StreamError::Closed)
            &&& shut.taken(bytes.len()) is None
        }),
{
}

/// Copy the bytes from index `start` on.
fn copy_from(bytes: &Vec<u8>, start: usize) -> (copy: Vec<u8>)
    requires
        start <= bytes.len(),
    ensures
        copy@ == bytes@.skip(start as int),
{
    let mut copy: Vec<u8> = Vec::new();
    let mut i: usize = start;
    while i < bytes.len()
        invariant
            start <= i <= bytes.len(),
            copy@ == bytes@.subrange(start as int, i as int),
        decreases bytes.len() - i,
    {
        copy.push(bytes[i]);
        assert(bytes@.subrange(start as int, i + 1) =~= bytes@.subrange(
            start as int,
            i as int,
        ).push(bytes@[i as int]));
        i += 1;
    }
    assert(copy@ =~= bytes@.skip(start as int));
    copy
}

/// A pipe takes every chunk that fits, whole, and no other: an open pipe with room for a chunk has
/// it behind what was written before, a chunk beyond the capacity traps, and a closed pipe refuses.
pub proof fn law_pipes_take_whatever_fits(pipe: PipeView, bytes: Seq<u8>)
    ensures
        !pipe.closed && pipe.written.len() + bytes.len() <= pipe.capacity ==> pipe.after_write(bytes)
            == Ok::<PipeView, StreamError>((PipeView { written: pipe.written + bytes, ..pipe })),
        !pipe.closed && pipe.written.len() + bytes.len() > pipe.capacity ==> (pipe.after_write(
            bytes,
        ) matches Err(StreamError::Trap(_))),
        pipe.closed ==> pipe.after_write(bytes) == Err::<PipeView, StreamError>(StreamError::Closed),
{
}

/// A writer is told exactly how much room there is, as long as there is any and the pipe is open,
/// and a partial write takes as much of what is offered as fits.
pub proof fn law_writers_are_told_the_room(pipe: PipeView, offered: nat)
    ensures
        ({
            let room = pipe.capacity - pipe.written.len();
            let open = !pipe.closed && room > 0;
            &&& open ==> pipe.permitted() == Ok::<int, StreamError>(room)
            &&& !open ==> pipe.permitted() == Err::<int, StreamError>(StreamError::Closed)
            &&& open && offered <= room ==> pipe.taken(offered) == Some(offered as int)
            &&& open && offered > room ==> pipe.taken(offered) == Some(room)
            &&& !open ==> pipe.taken(offered) is None
        }),
{
}

/// Bytes that are added come behind those there are and change nothing else.
pub proof fn law_bytes_are_appended(pipe: PipeView, bytes: Seq<u8>)
    ensures
        pipe.with_bytes(bytes) == (PipeView { written: pipe.written + bytes, ..pipe }),
        pipe.after_drain() == (PipeView { drained: pipe.written.len(), ..pipe }),
        pipe.unread() == pipe.written.skip(pipe.drained as int),
        pipe.idle() <==> pipe.drained == pipe.written.len() && !pipe.eof,
{
}

/// The two streams of a guest, under one budget: a chunk is written exactly if its own stream is
/// open and both streams together stay within the budget, and it goes to its own stream alone.
pub proof fn law_streams_take_whatever_fits_the_budget(
    streams: StreamsView,
    stream: Stream,
    bytes: Seq<u8>,
)
    requires
        streams.valid(),
    ensures
        ({
            let other = match stream {
                Stream::Stdout => Stream::Stderr,
                Stream::Stderr => Stream::Stdout,
            };
            let fits = streams.stdout.written.len() + streams.stderr.written.len() + bytes.len()
                <= streams.budget;
            let after = streams.after_write(stream, bytes);
            &&& streams.write_error(stream, bytes) is None <==> !streams.pipe(stream).closed && fits
            &&& !streams.pipe(stream).closed && fits ==> {
                &&& after.pipe(stream).written == streams.pipe(stream).written + bytes
                &&& !after.pipe(stream).closed
                &&& after.pipe(other) == streams.pipe(other)
            }
            &&& !fits || streams.pipe(stream).closed ==> after.pipe(stream).written == streams.pipe(
                stream,
            ).written && after.pipe(other).written == streams.pipe(other).written
            &&& streams.pipe(stream).closed ==> streams.write_error(stream, bytes) == Some(
                StreamError::Closed,
            ) && after == streams
            &&& !streams.pipe(stream).closed && !fits ==> (streams.write_error(
                stream,
                bytes,
            ) matches Some(StreamError::Trap(_)))
            &&& !streams.pipe(stream).closed && !fits && bytes.len() <= streams.budget
                - streams.pipe(stream).written.len() ==> after.stdout.closed && after.stderr.closed
            &&& after.budget == streams.budget
        }),
{
}

/// A writer of one stream is told how much both streams still take together, and a partial write
/// takes as much as that.
pub proof fn law_stream_writers_are_told_the_common_room(
    streams: StreamsView,
    stream: Stream,
    offered: nat,
)
    ensures
        ({
            let room = streams.budget - streams.stdout.written.len() - streams.stderr.written.len();
            let open = !streams.pipe(stream).closed && room > 0;
            &&& open ==> streams.permitted(stream) == Ok::<int, StreamError>(room)
            &&& !open ==> streams.permitted(stream) == Err::<int, StreamError>(StreamError::Closed)
            &&& open && offered <= room ==> streams.taken(stream, offered) == Some(offered as int)
            &&& open && offered > room ==> streams.taken(stream, offered) == Some(room)
            &&& !open ==> streams.taken(stream, offered) is None
        }),
{
}

/// New pipes are empty, open and take as much as they were made for, each and together.
pub proof fn law_new_pipes_are_empty_and_open(capacity: nat)
    ensures
        PipeView::fresh(capacity).written == Seq::<u8>::empty(),
        PipeView::fresh(capacity).capacity == capacity,
        PipeView::fresh(capacity).drained == 0,
        !PipeView::fresh(capacity).eof,
        !PipeView::fresh(capacity).closed,
        StreamsView::fresh(capacity).stdout == PipeView::fresh(capacity),
        StreamsView::fresh(capacity).stderr == PipeView::fresh(capacity),
        StreamsView::fresh(capacity).budget == capacity,
{
}

/// Each stream has its own pipe: what is put in place of one is found there, and the other stays.
pub proof fn law_each_stream_has_its_pipe(streams: StreamsView, pipe: PipeView)
    ensures
        streams.pipe(Stream::Stdout) == streams.stdout,
        streams.pipe(Stream::Stderr) == streams.stderr,
        streams.with_pipe(Stream::Stdout, pipe) == (StreamsView { stdout: pipe, ..streams }),
        streams.with_pipe(Stream::Stderr, pipe) == (StreamsView { stderr: pipe, ..streams }),
{
}

} // verus!
