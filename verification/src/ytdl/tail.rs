//! The decisions of a track's tail file: a file one producer appends to while any
//! number of readers follow behind it.
//!
//! A reader never sees end-of-file early: it waits while the producer is still
//! writing, reads what has landed, and ends cleanly only once the producer finished
//! without failing.

use vstd::prelude::*;

verus! {

/// What a reader does on one poll.
#[derive(Debug, PartialEq, Eq, Structural, Clone, Copy)]
pub enum ReadStep {
    /// Read this many bytes from the file, which has landed already.
    Read(usize),
    /// Return at once with nothing read: the caller's buffer is full.
    BufferFull,
    /// Clean end of the stream: the producer finished and everything is read.
    Eof,
    /// The producer failed or was cancelled: report an error rather than a short file.
    Fail,
    /// Nothing new yet: wait to be woken by the producer.
    Wait,
}

/// What a reader at `pos` does, when `written` bytes have landed, the producer is `done`
/// (having `failed` or not), and its buffer has `room` bytes left: read what it can of
/// what landed, else wait for the producer, else end cleanly or fail as it finished.
pub open spec fn next_read(pos: u64, written: u64, done: bool, failed: bool, room: usize) -> ReadStep {
    if pos < written {
        if room == 0 {
            ReadStep::BufferFull
        } else if written - pos < room {
            ReadStep::Read((written - pos) as usize)
        } else {
            ReadStep::Read(room)
        }
    } else if !done {
        ReadStep::Wait
    } else if failed {
        ReadStep::Fail
    } else {
        ReadStep::Eof
    }
}

/// What a reader does on one poll.
pub fn read_step(pos: u64, written: u64, done: bool, failed: bool, room: usize) -> (r: ReadStep)
    ensures
        r == next_read(pos, written, done, failed, room),
{
    if pos < written {
        if room == 0 {
            ReadStep::BufferFull
        } else if written - pos < room as u64 {
            ReadStep::Read((written - pos) as usize)
        } else {
            ReadStep::Read(room)
        }
    } else if !done {
        ReadStep::Wait
    } else if failed {
        ReadStep::Fail
    } else {
        ReadStep::Eof
    }
}

/// Law: a reader never reads past what has landed, and reads something whenever
/// something it has not read has landed and its buffer has room.
pub proof fn reads_stay_within_the_landed_bytes(pos: u64, written: u64, done: bool, failed: bool, room: usize)
    ensures
        next_read(pos, written, done, failed, room) matches ReadStep::Read(n)
            ==> 0 < n <= room && pos + n <= written,
        pos < written && room > 0 ==> next_read(pos, written, done, failed, room) is Read,
{
}

/// Law: a reader of a tail whose producer is still writing never ends the stream: it
/// reads, or waits. Once the producer is done and everything is read, the stream ends
/// cleanly exactly when the producer did not fail.
pub proof fn a_tail_ends_only_when_finished(pos: u64, written: u64, failed: bool, room: usize)
    ensures
        next_read(pos, written, false, failed, room) != ReadStep::Eof,
        next_read(pos, written, false, failed, room) != ReadStep::Fail,
        pos >= written ==> (next_read(pos, written, true, failed, room) == ReadStep::Eof <==> !failed),
        pos >= written ==> (next_read(pos, written, true, failed, room) == ReadStep::Fail <==> failed),
{
}

/// Whether a finished tail counts as failed: its producer returned an error, or the
/// track was cancelled, which leaves a partial file that must never be read as a track.
pub fn finished_failed(cancelled: bool, producer_ok: bool) -> (r: bool)
    ensures
        r == (cancelled || !producer_ok),
{
    cancelled || !producer_ok
}

/// Whether a track's existing tail can be attached to rather than fetched afresh: a
/// live or completed one can; a failed one can only ever hand its readers an error.
pub fn reuse_tail(exists: bool, failed: bool) -> (r: bool)
    ensures
        r == (exists && !failed),
{
    exists && !failed
}

/// How far one tail file's producer has got: the bytes it has made durable, whether it
/// has finished, and whether it finished without the whole track. Only the producer
/// moves it, and only forward.
pub struct TailProgress {
    written: u64,
    done: bool,
    failed: bool,
}

/// A [`TailProgress`] as values.
pub struct TailProgressView {
    pub written: nat,
    pub done: bool,
    pub failed: bool,
}

impl View for TailProgress {
    type V = TailProgressView;

    closed spec fn view(&self) -> TailProgressView {
        TailProgressView { written: self.written as nat, done: self.done, failed: self.failed }
    }
}

impl TailProgress {
    /// A fresh tail: nothing written, still being produced.
    pub fn new() -> (r: Self)
        ensures
            r@.written == 0,
            !r@.done,
            !r@.failed,
    {
        TailProgress { written: 0, done: false, failed: false }
    }

    /// Record `n` more bytes made durable by the producer.
    pub fn record_write(&mut self, n: u64)
        requires
            !old(self)@.done,
            old(self)@.written + n <= u64::MAX,
        ensures
            final(self)@.written == old(self)@.written + n,
            final(self)@.done == old(self)@.done,
            final(self)@.failed == old(self)@.failed,
    {
        self.written = self.written + n;
    }

    /// Record that the producer finished: the tail is failed when the track was
    /// cancelled or the producer returned an error, so a partial file is never read as
    /// a whole track.
    pub fn finish(&mut self, cancelled: bool, producer_ok: bool)
        requires
            !old(self)@.done,
        ensures
            final(self)@.done,
            final(self)@.failed == (cancelled || !producer_ok),
            final(self)@.written == old(self)@.written,
    {
        self.failed = finished_failed(cancelled, producer_ok);
        self.done = true;
    }

    /// The bytes made durable so far: what a recovery resumes from.
    pub fn written(&self) -> (r: u64)
        ensures
            r == self@.written,
    {
        self.written
    }

    /// Whether the producer has finished.
    pub fn is_done(&self) -> (r: bool)
        ensures
            r == self@.done,
    {
        self.done
    }

    /// Whether the tail can no longer serve its track.
    pub fn failed(&self) -> (r: bool)
        ensures
            r == self@.failed,
    {
        self.failed
    }

    /// What a reader at `pos` with `room` bytes left in its buffer does now.
    pub fn read_step(&self, pos: u64, room: usize) -> (r: ReadStep)
        ensures
            r == next_read(pos, self@.written as u64, self@.done, self@.failed, room),
    {
        read_step(pos, self.written, self.done, self.failed, room)
    }
}

} // verus!
